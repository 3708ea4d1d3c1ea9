//! Export-type extraction: a permissive finite-state scan of stripped source
//! text for `export type` declarations (with generics, variadic type packs
//! and defaults), and the rendering of forwarding statements that re-export
//! those declarations through a link file.
//!
//! The scanner never fails: source it does not understand at worst keeps a
//! declaration from being recognised.  Only declarations explicitly marked
//! `export` are kept, but the names of non-exported `type` declarations are
//! recorded so that a default value naming a module-private type can be
//! dropped from the forwarding line (such a default cannot be reproduced
//! across the module boundary).

use vstd::prelude::*;

use crate::lexer::{spec_get_char, strip_comments_and_strings, strip_spec};
use crate::text::{chars_of, ident_char, is_ident_char, is_space_char, space_char, string_of};
use vstd::string::StringExecFns;

verus! {

// ---------------------------------------------------------------------------
// Data model
// ---------------------------------------------------------------------------

/// Mathematical value of a [`TypeParam`].
pub struct TypeParamV {
    pub name: Seq<char>,
    pub is_pack: bool,
    pub default: Option<Seq<char>>,
}

/// One declared type parameter: a name, a variadic-pack marker, and an
/// optional default naming another type.
pub struct TypeParam {
    pub name: String,
    pub is_pack: bool,
    pub default: Option<String>,
}

impl View for TypeParam {
    type V = TypeParamV;

    open spec fn view(&self) -> TypeParamV {
        TypeParamV {
            name: self.name@,
            is_pack: self.is_pack,
            default: match self.default {
                Some(d) => Some(d@),
                None => None,
            },
        }
    }
}

/// The empty type parameter every scan starts from.
pub open spec fn empty_param() -> TypeParamV {
    TypeParamV { name: Seq::empty(), is_pack: false, default: None }
}

impl TypeParam {
    fn new() -> (r: Self)
        ensures
            r@ == empty_param(),
    {
        TypeParam { name: String::new(), is_pack: false, default: None }
    }
}

impl Default for TypeParam {
    fn default() -> (r: Self)
        ensures
            r@ == empty_param(),
    {
        Self::new()
    }
}

/// Mathematical value of an [`ExportStatement`].
pub struct ExportStatementV {
    pub name: Seq<char>,
    pub is_exported: bool,
    pub type_params: Seq<TypeParamV>,
}

/// One scanned type declaration: its name, whether it was marked `export`,
/// and its type parameters in declaration order.
pub struct ExportStatement {
    pub name: String,
    pub is_exported: bool,
    pub type_params: Vec<TypeParam>,
}

impl View for ExportStatement {
    type V = ExportStatementV;

    open spec fn view(&self) -> ExportStatementV {
        ExportStatementV {
            name: self.name@,
            is_exported: self.is_exported,
            type_params: self.type_params@.map_values(|p: TypeParam| p@),
        }
    }
}

/// The empty statement every scan starts from.
pub open spec fn empty_statement() -> ExportStatementV {
    ExportStatementV { name: Seq::empty(), is_exported: false, type_params: Seq::empty() }
}

impl ExportStatement {
    fn new() -> (r: Self)
        ensures
            r@ == empty_statement(),
    {
        let r = ExportStatement { name: String::new(), is_exported: false, type_params: Vec::new() };
        proof {
            assert(r@.type_params =~= Seq::<TypeParamV>::empty());
        }
        r
    }
}

impl Default for ExportStatement {
    fn default() -> (r: Self)
        ensures
            r@ == empty_statement(),
    {
        Self::new()
    }
}

/// The ordered list of exported statements extracted from one package.
pub struct ExtractTypesResult {
    pub statements: Vec<ExportStatement>,
}

impl View for ExtractTypesResult {
    type V = Seq<ExportStatementV>;

    open spec fn view(&self) -> Seq<ExportStatementV> {
        self.statements@.map_values(|s: ExportStatement| s@)
    }
}

impl ExtractTypesResult {
    pub fn new() -> (r: Self)
        ensures
            r@ == Seq::<ExportStatementV>::empty(),
    {
        let r = ExtractTypesResult { statements: Vec::new() };
        proof {
            assert(r@ =~= Seq::<ExportStatementV>::empty());
        }
        r
    }

    /// Whether no exported statement was found.
    pub fn is_empty(&self) -> (r: bool)
        ensures
            r == (self@.len() == 0),
    {
        self.statements.is_empty()
    }

    /// Keeps `statement` only if it was marked `export`.
    pub fn add_statement(&mut self, statement: ExportStatement)
        ensures
            final(self)@ == (if statement@.is_exported {
                old(self)@.push(statement@)
            } else {
                old(self)@
            }),
    {
        if statement.is_exported {
            self.statements.push(statement);
            proof {
                assert(self@ =~= old(self)@.push(self.statements@.last()@));
            }
        }
    }
}

// ---------------------------------------------------------------------------
// Scanning helpers
// ---------------------------------------------------------------------------

/// End of the identifier run starting at `i`: the first position at or after
/// `i` holding no identifier character.
pub open spec fn ident_end(code: Seq<char>, i: int) -> int
    decreases code.len() - i,
{
    if is_ident_char(spec_get_char(code, i)) {
        ident_end(code, i + 1)
    } else {
        i
    }
}

proof fn lemma_ident_end_bounds(code: Seq<char>, i: int)
    requires
        0 <= i <= code.len(),
    ensures
        i <= ident_end(code, i) <= code.len(),
    decreases code.len() - i,
{
    if is_ident_char(spec_get_char(code, i)) {
        lemma_ident_end_bounds(code, i + 1);
    }
}

/// Reads the identifier run starting at `from`, returning it together with
/// the position just past it.
fn scan_ident(code: &Vec<char>, from: usize) -> (r: (String, usize))
    requires
        from <= code@.len(),
    ensures
        r.1 == ident_end(code@, from as int),
        from <= r.1 <= code@.len(),
        r.0@ == code@.subrange(from as int, r.1 as int),
{
    let n = code.len();
    let mut j: usize = from;
    let mut buf: Vec<char> = Vec::new();
    while j < n && ident_char(code[j])
        invariant
            from <= j <= n,
            ident_end(code@, from as int) == ident_end(code@, j as int),
            buf@ == code@.subrange(from as int, j as int),
        decreases n - j,
    {
        buf.push(code[j]);
        j += 1;
        proof {
            assert(buf@ =~= code@.subrange(from as int, j as int));
        }
    }
    (string_of(buf), j)
}

/// Whether the keyword `export` starts at `i`.
pub open spec fn kw_export_at(code: Seq<char>, i: int) -> bool {
    &&& spec_get_char(code, i) == 'e'
    &&& spec_get_char(code, i + 1) == 'x'
    &&& spec_get_char(code, i + 2) == 'p'
    &&& spec_get_char(code, i + 3) == 'o'
    &&& spec_get_char(code, i + 4) == 'r'
    &&& spec_get_char(code, i + 5) == 't'
}

/// Whether the keyword `type` starts at `i`.
pub open spec fn kw_type_at(code: Seq<char>, i: int) -> bool {
    &&& spec_get_char(code, i) == 't'
    &&& spec_get_char(code, i + 1) == 'y'
    &&& spec_get_char(code, i + 2) == 'p'
    &&& spec_get_char(code, i + 3) == 'e'
}

/// Whether a variadic-pack marker `...` starts at `i`.
pub open spec fn ellipsis_at(code: Seq<char>, i: int) -> bool {
    &&& spec_get_char(code, i) == '.'
    &&& spec_get_char(code, i + 1) == '.'
    &&& spec_get_char(code, i + 2) == '.'
}

fn export_at(code: &Vec<char>, i: usize) -> (r: bool)
    ensures
        r == kw_export_at(code@, i as int),
{
    let n = code.len();
    if i >= n {
        return false;
    }
    code[i] == 'e' && crate::lexer::get(code, i + 1) == 'x' && crate::lexer::get(code, i + 2)
        == 'p' && crate::lexer::get(code, i + 3) == 'o' && crate::lexer::get(code, i + 4) == 'r'
        && crate::lexer::get(code, i + 5) == 't'
}

fn type_at(code: &Vec<char>, i: usize) -> (r: bool)
    ensures
        r == kw_type_at(code@, i as int),
{
    let n = code.len();
    if i >= n {
        return false;
    }
    code[i] == 't' && crate::lexer::get(code, i + 1) == 'y' && crate::lexer::get(code, i + 2)
        == 'p' && crate::lexer::get(code, i + 3) == 'e'
}

fn dots_at(code: &Vec<char>, i: usize) -> (r: bool)
    ensures
        r == ellipsis_at(code@, i as int),
{
    let n = code.len();
    if i >= n {
        return false;
    }
    code[i] == '.' && crate::lexer::get(code, i + 1) == '.' && crate::lexer::get(code, i + 2)
        == '.'
}

// ---------------------------------------------------------------------------
// The scan itself
// ---------------------------------------------------------------------------

/// The scanner's state.
#[derive(Clone, Copy, Debug)]
pub enum ParseState {
    /// Looking for `export` (or a bare `type`).
    Code,
    /// Saw `export`; expecting `type`.
    Export,
    /// Expecting the declaration name.
    Type,
    /// Optionally expecting `<`.
    StartTypeParamList,
    /// Expecting a type parameter name.
    TypeParam,
    /// Optionally expecting `...`.
    TypePack,
    /// Optionally expecting `=` and a default.
    TypeDefault,
    /// Expecting the default's name.
    TypeDefaultName,
    /// Expecting `,` or `>`.
    NextTypeParam,
}

/// Ordering aid for termination: every transition that does not consume a
/// character lowers this rank.
pub open spec fn parse_rank(st: ParseState) -> int {
    match st {
        ParseState::Code => 0,
        ParseState::Export => 6,
        ParseState::Type => 5,
        ParseState::StartTypeParamList => 4,
        ParseState::TypeParam => 3,
        ParseState::TypePack => 3,
        ParseState::TypeDefault => 2,
        ParseState::TypeDefaultName => 2,
        ParseState::NextTypeParam => 1,
    }
}

/// What a scan yields: the exported statements in declaration order, and the
/// set of names declared without `export`.
pub struct ParseOutcome {
    pub statements: Seq<ExportStatementV>,
    pub non_exported: Set<Seq<char>>,
}

/// The scanner's mathematical model: what scanning `code` from position `i`
/// in state `st` yields, with `cur` and `curp` the statement and parameter
/// under construction.  Whitespace is skipped between any two states; a
/// character no rule matches is skipped one position at a time.
pub open spec fn parse_from(
    code: Seq<char>,
    i: int,
    st: ParseState,
    cur: ExportStatementV,
    curp: TypeParamV,
) -> ParseOutcome
    decreases code.len() - i, parse_rank(st),
    via parse_from_decreases
{
    if i < 0 || i >= code.len() {
        ParseOutcome { statements: Seq::empty(), non_exported: Set::empty() }
    } else if is_space_char(code[i]) {
        parse_from(code, i + 1, st, cur, curp)
    } else {
        let c = code[i];
        match st {
            ParseState::Code => {
                if c == 'e' && kw_export_at(code, i) {
                    parse_from(
                        code,
                        i + 6,
                        ParseState::Export,
                        ExportStatementV { is_exported: true, ..cur },
                        curp,
                    )
                } else if c == 't' && kw_type_at(code, i) {
                    parse_from(
                        code,
                        i + 4,
                        ParseState::Type,
                        ExportStatementV { is_exported: false, ..cur },
                        curp,
                    )
                } else {
                    parse_from(code, i + 1, ParseState::Code, cur, curp)
                }
            }
            ParseState::Export => {
                if c == 't' {
                    if kw_type_at(code, i) {
                        parse_from(code, i + 4, ParseState::Type, cur, curp)
                    } else {
                        parse_from(code, i, ParseState::Code, cur, curp)
                    }
                } else {
                    parse_from(code, i + 1, ParseState::Export, cur, curp)
                }
            }
            ParseState::Type => {
                let e = ident_end(code, i);
                let name = code.subrange(i, e);
                let rest = parse_from(
                    code,
                    e,
                    ParseState::StartTypeParamList,
                    ExportStatementV { name: name, ..cur },
                    curp,
                );
                if !cur.is_exported {
                    ParseOutcome {
                        statements: rest.statements,
                        non_exported: rest.non_exported.insert(name),
                    }
                } else {
                    rest
                }
            }
            ParseState::StartTypeParamList => {
                if c == '<' {
                    parse_from(code, i + 1, ParseState::TypeParam, cur, curp)
                } else {
                    let rest = parse_from(code, i, ParseState::Code, empty_statement(), curp);
                    if cur.is_exported {
                        ParseOutcome {
                            statements: seq![cur] + rest.statements,
                            non_exported: rest.non_exported,
                        }
                    } else {
                        rest
                    }
                }
            }
            ParseState::TypeParam => {
                let e = ident_end(code, i);
                if e == i {
                    parse_from(code, i + 1, ParseState::TypeParam, cur, curp)
                } else {
                    parse_from(
                        code,
                        e,
                        ParseState::TypePack,
                        cur,
                        TypeParamV { name: code.subrange(i, e), ..curp },
                    )
                }
            }
            ParseState::TypePack => {
                if c == '.' && ellipsis_at(code, i) {
                    parse_from(
                        code,
                        i + 3,
                        ParseState::TypeDefault,
                        cur,
                        TypeParamV { is_pack: true, ..curp },
                    )
                } else {
                    parse_from(code, i, ParseState::TypeDefault, cur, curp)
                }
            }
            ParseState::TypeDefault => {
                if c == '=' {
                    parse_from(code, i + 1, ParseState::TypeDefaultName, cur, curp)
                } else {
                    parse_from(
                        code,
                        i,
                        ParseState::NextTypeParam,
                        ExportStatementV { type_params: cur.type_params.push(curp), ..cur },
                        empty_param(),
                    )
                }
            }
            ParseState::TypeDefaultName => {
                let e = ident_end(code, i);
                if e == i {
                    parse_from(code, i + 1, ParseState::TypeDefaultName, cur, curp)
                } else {
                    parse_from(
                        code,
                        e,
                        ParseState::NextTypeParam,
                        ExportStatementV {
                            type_params: cur.type_params.push(
                                TypeParamV { default: Some(code.subrange(i, e)), ..curp },
                            ),
                            ..cur
                        },
                        empty_param(),
                    )
                }
            }
            ParseState::NextTypeParam => {
                if c == ',' {
                    parse_from(code, i + 1, ParseState::TypeParam, cur, curp)
                } else if c == '>' {
                    let rest = parse_from(code, i + 1, ParseState::Code, empty_statement(), curp);
                    if cur.is_exported {
                        ParseOutcome {
                            statements: seq![cur] + rest.statements,
                            non_exported: rest.non_exported,
                        }
                    } else {
                        rest
                    }
                } else {
                    parse_from(code, i + 1, ParseState::NextTypeParam, cur, curp)
                }
            }
        }
    }
}

#[via_fn]
proof fn parse_from_decreases(
    code: Seq<char>,
    i: int,
    st: ParseState,
    cur: ExportStatementV,
    curp: TypeParamV,
) {
    if 0 <= i <= code.len() {
        lemma_ident_end_bounds(code, i);
    }
}

/// A parameter after default-correction: a default naming a non-exported
/// declaration is dropped.
pub open spec fn corrected_param(p: TypeParamV, non_exported: Set<Seq<char>>) -> TypeParamV {
    match p.default {
        Some(d) => if non_exported.contains(d) {
            TypeParamV { default: None, ..p }
        } else {
            p
        },
        None => p,
    }
}

/// A statement after default-correction of each of its parameters.
pub open spec fn corrected_statement(
    s: ExportStatementV,
    non_exported: Set<Seq<char>>,
) -> ExportStatementV {
    ExportStatementV {
        type_params: s.type_params.map_values(|p: TypeParamV| corrected_param(p, non_exported)),
        ..s
    }
}

/// What [`parse_types`] yields on `code`: the exported statements of the
/// stripped text, in declaration order, after default-correction.
pub open spec fn parse_types_spec(code: Seq<char>) -> Seq<ExportStatementV> {
    let out = parse_from(
        strip_spec(code),
        0,
        ParseState::Code,
        empty_statement(),
        empty_param(),
    );
    out.statements.map_values(|s: ExportStatementV| corrected_statement(s, out.non_exported))
}

/// The set of scanned names a sequence of recorded names stands for.
pub open spec fn names_set(v: Seq<String>) -> Set<Seq<char>> {
    Set::new(|t: Seq<char>| exists|j: int| #![trigger v[j]] 0 <= j < v.len() && v[j]@ == t)
}

proof fn lemma_names_set_push(v: Seq<String>, s: String)
    ensures
        names_set(v.push(s)) =~= names_set(v).insert(s@),
{
    assert forall|t: Seq<char>| names_set(v.push(s)).contains(t) implies names_set(v).insert(
        s@,
    ).contains(t) by {
        let j = choose|j: int| #![trigger v.push(s)[j]] 0 <= j < v.push(s).len() && v.push(s)[j]@
            == t;
        if j < v.len() {
            assert(v[j]@ == t);
        } else {
            assert(v.push(s)[j] == s);
        }
    }
    assert forall|t: Seq<char>| names_set(v).insert(s@).contains(t) implies names_set(
        v.push(s),
    ).contains(t) by {
        if t == s@ {
            assert(v.push(s)[v.len() as int]@ == t);
        } else {
            let j = choose|j: int| #![trigger v[j]] 0 <= j < v.len() && v[j]@ == t;
            assert(v.push(s)[j]@ == t);
        }
    }
}

/// Whether `s` is among the recorded names.
fn names_contain(names: &Vec<String>, s: &String) -> (r: bool)
    ensures
        r == names_set(names@).contains(s@),
{
    let n = names.len();
    let mut k: usize = 0;
    while k < n
        invariant
            k <= n,
            forall|j: int| #![trigger names@[j]] 0 <= j < k ==> names@[j]@ != s@,
        decreases n - k,
    {
        if s.eq(&names[k]) {
            proof {
                assert(names@[k as int]@ == s@);
            }
            return true;
        }
        k += 1;
    }
    false
}

/// Scans `lua_code` for `export type` declarations: strips comments and
/// string bodies, runs the permissive state machine over what remains, and
/// drops parameter defaults that name non-exported declarations.  Source the
/// scanner does not understand never makes it fail; at worst a declaration
/// goes unrecognised.
pub fn parse_types(lua_code: &str) -> (r: ExtractTypesResult)
    ensures
        r@ == parse_types_spec(lua_code@),
{
    let code = chars_of(lua_code);
    let stripped = strip_comments_and_strings(&code);
    let n = stripped.len();
    let mut index: usize = 0;
    let mut state = ParseState::Code;
    let mut current_export_statement = ExportStatement::new();
    let mut current_type_param = TypeParam::new();
    let mut result = ExtractTypesResult::new();
    let mut non_exported_types: Vec<String> = Vec::new();
    let ghost full = parse_from(stripped@, 0, ParseState::Code, empty_statement(), empty_param());
    while index < n
        invariant
            index <= n,
            n == stripped@.len(),
            full.statements == result@ + parse_from(
                stripped@,
                index as int,
                state,
                current_export_statement@,
                current_type_param@,
            ).statements,
            full.non_exported == names_set(non_exported_types@) + parse_from(
                stripped@,
                index as int,
                state,
                current_export_statement@,
                current_type_param@,
            ).non_exported,
        decreases stripped@.len() - index, parse_rank(state),
    {
        let ghost here = parse_from(
            stripped@,
            index as int,
            state,
            current_export_statement@,
            current_type_param@,
        );
        let c = stripped[index];
        if space_char(c) {
            index += 1;
        } else {
            match state {
                ParseState::Code => {
                    if c == 'e' {
                        if export_at(&stripped, index) {
                            current_export_statement.is_exported = true;
                            state = ParseState::Export;
                            index += 6;
                        } else {
                            index += 1;
                        }
                    } else if c == 't' {
                        if type_at(&stripped, index) {
                            current_export_statement.is_exported = false;
                            state = ParseState::Type;
                            index += 4;
                        } else {
                            index += 1;
                        }
                    } else {
                        index += 1;
                    }
                }
                ParseState::Export => {
                    if c == 't' {
                        if type_at(&stripped, index) {
                            state = ParseState::Type;
                            index += 4;
                        } else {
                            state = ParseState::Code;
                        }
                    } else {
                        index += 1;
                    }
                }
                ParseState::Type => {
                    let (decl_name, e) = scan_ident(&stripped, index);
                    if !current_export_statement.is_exported {
                        let ghost pre_names = non_exported_types@;
                        non_exported_types.push(decl_name.clone());
                        proof {
                            lemma_names_set_push(pre_names, decl_name);
                            assert(names_set(non_exported_types@) =~= names_set(pre_names).insert(
                                decl_name@,
                            ));
                        }
                    }
                    current_export_statement.name = decl_name;
                    state = ParseState::StartTypeParamList;
                    index = e;
                    proof {
                        assert(full.non_exported =~= names_set(non_exported_types@) + parse_from(
                            stripped@,
                            index as int,
                            state,
                            current_export_statement@,
                            current_type_param@,
                        ).non_exported);
                    }
                }
                ParseState::StartTypeParamList => {
                    if c == '<' {
                        state = ParseState::TypeParam;
                        index += 1;
                    } else {
                        let statement = current_export_statement;
                        current_export_statement = ExportStatement::new();
                        result.add_statement(statement);
                        state = ParseState::Code;
                        proof {
                            assert(full.statements =~= result@ + parse_from(
                                stripped@,
                                index as int,
                                state,
                                current_export_statement@,
                                current_type_param@,
                            ).statements);
                        }
                    }
                }
                ParseState::TypeParam => {
                    let (param_name, e) = scan_ident(&stripped, index);
                    if e == index {
                        index += 1;
                    } else {
                        current_type_param.name = param_name;
                        state = ParseState::TypePack;
                        index = e;
                    }
                }
                ParseState::TypePack => {
                    if c == '.' {
                        if dots_at(&stripped, index) {
                            current_type_param.is_pack = true;
                            index += 3;
                        }
                        state = ParseState::TypeDefault;
                    } else {
                        state = ParseState::TypeDefault;
                    }
                }
                ParseState::TypeDefault => {
                    if c == '=' {
                        index += 1;
                        state = ParseState::TypeDefaultName;
                    } else {
                        let param = current_type_param;
                        let ghost pv = param@;
                        let ghost pre = current_export_statement@;
                        current_type_param = TypeParam::new();
                        current_export_statement.type_params.push(param);
                        state = ParseState::NextTypeParam;
                        proof {
                            assert(current_export_statement@.type_params =~= pre.type_params.push(
                                pv,
                            ));
                        }
                    }
                }
                ParseState::TypeDefaultName => {
                    let (default_name, e) = scan_ident(&stripped, index);
                    if e == index {
                        index += 1;
                    } else {
                        current_type_param.default = Some(default_name);
                        let param = current_type_param;
                        let ghost pv = param@;
                        let ghost pre = current_export_statement@;
                        current_type_param = TypeParam::new();
                        current_export_statement.type_params.push(param);
                        state = ParseState::NextTypeParam;
                        index = e;
                        proof {
                            assert(current_export_statement@.type_params =~= pre.type_params.push(
                                pv,
                            ));
                        }
                    }
                }
                ParseState::NextTypeParam => {
                    if c == ',' {
                        index += 1;
                        state = ParseState::TypeParam;
                    } else if c == '>' {
                        let statement = current_export_statement;
                        current_export_statement = ExportStatement::new();
                        result.add_statement(statement);
                        index += 1;
                        state = ParseState::Code;
                        proof {
                            assert(full.statements =~= result@ + parse_from(
                                stripped@,
                                index as int,
                                state,
                                current_export_statement@,
                                current_type_param@,
                            ).statements);
                        }
                    } else {
                        index += 1;
                    }
                }
            }
        }
    }
    // Correct defaults that name non-exported declarations.
    let ghost scanned = result@;
    let mut corrected: Vec<ExportStatement> = Vec::new();
    let mut a: usize = 0;
    let m = result.statements.len();
    while a < m
        invariant
            a <= m,
            m == result.statements@.len(),
            full.statements == result@,
            full.non_exported == names_set(non_exported_types@),
            corrected@.map_values(|s: ExportStatement| s@) =~= result@.take(a as int).map_values(
                |s: ExportStatementV| corrected_statement(s, full.non_exported),
            ),
        decreases m - a,
    {
        let s = &result.statements[a];
        let ghost sv = result@[a as int];
        proof {
            assert(sv == s@);
        }
        let pc = s.type_params.len();
        let mut params: Vec<TypeParam> = Vec::new();
        let mut b: usize = 0;
        while b < pc
            invariant
                b <= pc,
                pc == s.type_params@.len(),
                full.non_exported == names_set(non_exported_types@),
                params@.map_values(|p: TypeParam| p@) =~= s@.type_params.take(
                    b as int,
                ).map_values(|p: TypeParamV| corrected_param(p, full.non_exported)),
            decreases pc - b,
        {
            let p = &s.type_params[b];
            let ghost pv = s@.type_params[b as int];
            proof {
                assert(pv == p@);
            }
            let fixed_default: Option<String> = match &p.default {
                Some(d) => {
                    if names_contain(&non_exported_types, d) {
                        None
                    } else {
                        Some(d.clone())
                    }
                }
                None => None,
            };
            let fixed = TypeParam {
                name: p.name.clone(),
                is_pack: p.is_pack,
                default: fixed_default,
            };
            proof {
                assert(fixed@ == corrected_param(pv, full.non_exported));
            }
            let ghost pre_params = params@;
            let ghost fixed_v = fixed@;
            params.push(fixed);
            b += 1;
            proof {
                assert forall|j: int| #![trigger params@[j]] 0 <= j < b as int implies params@.map_values(
                    |p: TypeParam| p@,
                )[j] == s@.type_params.take(b as int).map_values(
                    |p: TypeParamV| corrected_param(p, full.non_exported),
                )[j] by {
                    assert(s@.type_params.take(b as int)[j] == s@.type_params[j]);
                    if j < b as int - 1 {
                        assert(pre_params.map_values(|p: TypeParam| p@)[j]
                            == s@.type_params.take(b as int - 1).map_values(
                            |p: TypeParamV| corrected_param(p, full.non_exported),
                        )[j]);
                        assert(s@.type_params.take(b as int - 1)[j] == s@.type_params[j]);
                        assert(params@[j] == pre_params[j]);
                    } else {
                        assert(params@[j]@ == fixed_v);
                    }
                }
                assert(params@.map_values(|p: TypeParam| p@) =~= s@.type_params.take(
                    b as int,
                ).map_values(|p: TypeParamV| corrected_param(p, full.non_exported)));
            }
        }
        proof {
            assert(s@.type_params.take(pc as int) =~= s@.type_params);
        }
        let rebuilt = ExportStatement {
            name: s.name.clone(),
            is_exported: s.is_exported,
            type_params: params,
        };
        proof {
            assert(rebuilt@ == corrected_statement(sv, full.non_exported));
        }
        let ghost pre_corrected = corrected@;
        let ghost rebuilt_v = rebuilt@;
        corrected.push(rebuilt);
        a += 1;
        proof {
            assert forall|j: int| #![trigger corrected@[j]] 0 <= j < a as int implies corrected@.map_values(
                |s: ExportStatement| s@,
            )[j] == result@.take(a as int).map_values(
                |s: ExportStatementV| corrected_statement(s, full.non_exported),
            )[j] by {
                assert(result@.take(a as int)[j] == result@[j]);
                if j < a as int - 1 {
                    assert(pre_corrected.map_values(|s: ExportStatement| s@)[j] == result@.take(
                        a as int - 1,
                    ).map_values(
                        |s: ExportStatementV| corrected_statement(s, full.non_exported),
                    )[j]);
                    assert(result@.take(a as int - 1)[j] == result@[j]);
                    assert(corrected@[j] == pre_corrected[j]);
                } else {
                    assert(corrected@[j]@ == rebuilt_v);
                }
            }
            assert(corrected@.map_values(|s: ExportStatement| s@) =~= result@.take(
                a as int,
            ).map_values(|s: ExportStatementV| corrected_statement(s, full.non_exported)));
        }
    }
    proof {
        assert(result@.take(m as int) =~= result@);
        assert(ExtractTypesResult { statements: corrected }@ =~= parse_types_spec(lua_code@));
    }
    ExtractTypesResult { statements: corrected }
}

// ---------------------------------------------------------------------------
// Forwarding statements
// ---------------------------------------------------------------------------

/// How one parameter is rendered in the declared parameter list: its name,
/// `...` if it is a pack, and ` = default` if a default survived correction.
pub open spec fn render_param_decl(p: TypeParamV) -> Seq<char> {
    p.name + (if p.is_pack {
        "..."@
    } else {
        Seq::<char>::empty()
    }) + (match p.default {
        Some(d) => " = "@ + d,
        None => Seq::<char>::empty(),
    })
}

/// How one parameter is rendered in the instantiation argument list: its
/// name, and `...` if it is a pack.
pub open spec fn render_param_arg(p: TypeParamV) -> Seq<char> {
    p.name + (if p.is_pack {
        "..."@
    } else {
        Seq::<char>::empty()
    })
}

/// `items` joined left to right with `sep` between neighbours.
pub open spec fn join_with(items: Seq<Seq<char>>, sep: Seq<char>) -> Seq<char>
    decreases items.len(),
{
    if items.len() == 0 {
        Seq::empty()
    } else if items.len() == 1 {
        items[0]
    } else {
        join_with(items.drop_last(), sep) + sep + items.last()
    }
}

proof fn lemma_join_with_step(items: Seq<Seq<char>>, sep: Seq<char>, k: int)
    requires
        0 <= k < items.len(),
    ensures
        join_with(items.take(k + 1), sep) == (if k == 0 {
            items[0]
        } else {
            join_with(items.take(k), sep) + sep + items[k]
        }),
{
    if k == 0 {
        assert(items.take(1).len() == 1);
        assert(items.take(1)[0] == items[0]);
    } else {
        assert(items.take(k + 1).drop_last() =~= items.take(k));
        assert(items.take(k + 1).last() == items[k]);
    }
}

/// The forwarding line for one exported statement, with the required module
/// bound to `module`: `export type N = module.N`, or with a parameter list,
/// `export type N<decls> = module.N<args>`.
pub open spec fn forwarding_statement_spec(s: ExportStatementV, module: Seq<char>) -> Seq<char> {
    if s.type_params.len() == 0 {
        "export type "@ + s.name + " = "@ + module + "."@ + s.name
    } else {
        "export type "@ + s.name + "<"@ + join_with(
            s.type_params.map_values(|p: TypeParamV| render_param_decl(p)),
            ", "@,
        ) + "> = "@ + module + "."@ + s.name + "<"@ + join_with(
            s.type_params.map_values(|p: TypeParamV| render_param_arg(p)),
            ", "@,
        ) + ">"@
    }
}

/// The forwarding lines of all statements, one per line, in declaration
/// order.
pub open spec fn format_spec(stmts: Seq<ExportStatementV>, module: Seq<char>) -> Seq<char> {
    join_with(
        stmts.map_values(|s: ExportStatementV| forwarding_statement_spec(s, module)),
        "\n"@,
    )
}

impl ExportStatement {
    /// Renders this statement's forwarding line against `module_name`.
    #[verifier::rlimit(60)]
    pub fn to_forwarding_statement(&self, module_name: &str) -> (r: String)
        ensures
            r@ == forwarding_statement_spec(self@, module_name@),
    {
        let mut out = String::new();
        out.append("export type ");
        out.append(self.name.as_str());
        if self.type_params.len() == 0 {
            out.append(" = ");
            out.append(module_name);
            out.append(".");
            out.append(self.name.as_str());
            proof {
                assert(out@ =~= forwarding_statement_spec(self@, module_name@));
            }
        } else {
            out.append("<");
            let ghost decls = self@.type_params.map_values(
                |p: TypeParamV| render_param_decl(p),
            );
            let ghost decl_prefix = out@;
            let m = self.type_params.len();
            let mut k: usize = 0;
            while k < m
                invariant
                    k <= m,
                    m == self.type_params@.len(),
                    out@ == decl_prefix + join_with(decls.take(k as int), ", "@),
                decreases m - k,
            {
                if k > 0 {
                    out.append(", ");
                }
                let p = &self.type_params[k];
                proof {
                    assert(p@ == self@.type_params[k as int]);
                }
                out.append(p.name.as_str());
                if p.is_pack {
                    out.append("...");
                }
                match &p.default {
                    Some(d) => {
                        out.append(" = ");
                        out.append(d.as_str());
                    }
                    None => {}
                }
                proof {
                    lemma_join_with_step(decls, ", "@, k as int);
                    assert(decls[k as int] == render_param_decl(self@.type_params[k as int]));
                    assert(out@ =~= decl_prefix + join_with(decls.take(k as int + 1), ", "@));
                }
                k += 1;
            }
            proof {
                assert(decls.take(m as int) =~= decls);
            }
            out.append("> = ");
            out.append(module_name);
            out.append(".");
            out.append(self.name.as_str());
            out.append("<");
            let ghost args = self@.type_params.map_values(|p: TypeParamV| render_param_arg(p));
            let ghost arg_prefix = out@;
            let mut k2: usize = 0;
            while k2 < m
                invariant
                    k2 <= m,
                    m == self.type_params@.len(),
                    out@ == arg_prefix + join_with(args.take(k2 as int), ", "@),
                decreases m - k2,
            {
                if k2 > 0 {
                    out.append(", ");
                }
                let p = &self.type_params[k2];
                proof {
                    assert(p@ == self@.type_params[k2 as int]);
                }
                out.append(p.name.as_str());
                if p.is_pack {
                    out.append("...");
                }
                proof {
                    lemma_join_with_step(args, ", "@, k2 as int);
                    assert(args[k2 as int] == render_param_arg(self@.type_params[k2 as int]));
                    assert(out@ =~= arg_prefix + join_with(args.take(k2 as int + 1), ", "@));
                }
                k2 += 1;
            }
            proof {
                assert(args.take(m as int) =~= args);
            }
            out.append(">");
            proof {
                assert(out@ =~= forwarding_statement_spec(self@, module_name@));
            }
        }
        out
    }
}

impl ExtractTypesResult {
    /// Renders every statement's forwarding line, one per line, in
    /// declaration order.
    pub fn format_forwarding_statements(&self, module_name: &str) -> (r: String)
        ensures
            r@ == format_spec(self@, module_name@),
    {
        let mut out = String::new();
        let ghost lines = self@.map_values(
            |s: ExportStatementV| forwarding_statement_spec(s, module_name@),
        );
        let m = self.statements.len();
        let mut k: usize = 0;
        while k < m
            invariant
                k <= m,
                m == self.statements@.len(),
                out@ == join_with(lines.take(k as int), "\n"@),
        decreases m - k,
        {
            if k > 0 {
                out.append("\n");
            }
            let line = self.statements[k].to_forwarding_statement(module_name);
            out.append(line.as_str());
            proof {
                lemma_join_with_step(lines, "\n"@, k as int);
                assert(self@[k as int] == self.statements@[k as int]@);
                assert(lines[k as int] == forwarding_statement_spec(
                    self@[k as int],
                    module_name@,
                ));
                assert(out@ =~= join_with(lines.take(k as int + 1), "\n"@));
            }
            k += 1;
        }
        proof {
            assert(lines.take(m as int) =~= lines);
        }
        out
    }
}

} // verus!
