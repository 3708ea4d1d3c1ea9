//! Lexical stripper: removes comment bodies and string-literal bodies from
//! source text, so that a later scan for keywords only ever sees real code.
//!
//! The scanner is a finite-state machine over characters.  Quoted strings
//! honour a backslash escape of their own quote character; long-bracket
//! regions (`[=*[` ... `]=*]`) match only at their own depth; a line comment
//! runs to the next newline; regions left unterminated at end of input simply
//! end the scan, returning what was emitted so far.

use vstd::prelude::*;

verus! {

/// A character of `code`, or NUL when `at` lies outside it.  The scanners
/// read every lookahead through this, so running past the end of the input is
/// harmless: no rule matches NUL.
pub open spec fn spec_get_char(code: Seq<char>, at: int) -> char {
    if 0 <= at < code.len() {
        code[at]
    } else {
        '\0'
    }
}

/// Runtime counterpart of [`spec_get_char`].
pub fn get(code: &Vec<char>, at: usize) -> (r: char)
    ensures
        r == spec_get_char(code@, at as int),
{
    if at >= code.len() {
        '\0'
    } else {
        code[at]
    }
}

/// Length of the run of `=` characters starting at `at`.
pub open spec fn eq_run_len(code: Seq<char>, at: int) -> nat
    decreases code.len() - at,
{
    if spec_get_char(code, at) == '=' {
        (1 + eq_run_len(code, at + 1)) as nat
    } else {
        0
    }
}

/// Whether a long-bracket region of the given depth closes at `at`: a `]`,
/// followed by exactly `level` `=` characters, followed by another `]`.
pub open spec fn is_block_close(code: Seq<char>, at: int, level: int) -> bool {
    &&& spec_get_char(code, at) == ']'
    &&& forall|j: int| 0 <= j < level ==> #[trigger] spec_get_char(code, at + 1 + j) == '='
    &&& spec_get_char(code, at + 1 + level) == ']'
}

/// Runtime test for [`is_block_close`]: does a long-bracket region of depth
/// `level` close at position `at`?
pub fn is_end_of_block(code: &Vec<char>, at: usize, level: usize) -> (r: bool)
    ensures
        r == is_block_close(code@, at as int, level as int),
{
    if get(code, at) != ']' {
        return false;
    }
    let mut j: usize = 0;
    while j < level
        invariant
            j <= level,
            at < code@.len(),
            forall|k: int| 0 <= k < j ==> #[trigger] spec_get_char(code@, at + 1 + k) == '=',
        decreases level - j,
    {
        if code.len() - at - 1 <= j {
            assert(spec_get_char(code@, at + 1 + j) != '=');
            return false;
        }
        if code[at + 1 + j] != '=' {
            assert(spec_get_char(code@, at + 1 + j) != '=');
            return false;
        }
        j += 1;
    }
    if code.len() - at - 1 <= level {
        return false;
    }
    code[at + 1 + level] == ']'
}

/// The stripper's scanning state.
#[derive(Clone, Copy, Debug)]
pub enum LexState {
    Code,
    TemplateString,
    DoubleQuoteString,
    SingleQuoteString,
    BlockString(usize),
    LineComment,
    BlockComment(usize),
}

/// Ordering aid for termination: the one transition that does not consume a
/// character (a newline ending a line comment) lowers this rank.
pub open spec fn lex_rank(st: LexState) -> int {
    match st {
        LexState::LineComment => 1,
        _ => 0,
    }
}

/// The characters the stripper emits when started at position `i` in state
/// `st`: the mathematical model of [`strip_comments_and_strings`].
pub open spec fn strip_from(code: Seq<char>, i: int, st: LexState) -> Seq<char>
    decreases code.len() - i, lex_rank(st),
{
    if i < 0 || i >= code.len() {
        Seq::empty()
    } else {
        let c = code[i];
        match st {
            LexState::Code => {
                if c == '`' {
                    strip_from(code, i + 1, LexState::TemplateString)
                } else if c == '"' {
                    strip_from(code, i + 1, LexState::DoubleQuoteString)
                } else if c == '\'' {
                    strip_from(code, i + 1, LexState::SingleQuoteString)
                } else if c == '-' && spec_get_char(code, i + 1) == '-' {
                    if spec_get_char(code, i + 2) == '[' && spec_get_char(
                        code,
                        i + 3 + eq_run_len(code, i + 3),
                    ) == '[' {
                        strip_from(
                            code,
                            i + 4 + eq_run_len(code, i + 3),
                            LexState::BlockComment(eq_run_len(code, i + 3) as usize),
                        )
                    } else {
                        strip_from(code, i + 2, LexState::LineComment)
                    }
                } else if c == '[' && spec_get_char(code, i + 1 + eq_run_len(code, i + 1))
                    == '[' {
                    strip_from(
                        code,
                        i + 2 + eq_run_len(code, i + 1),
                        LexState::BlockString(eq_run_len(code, i + 1) as usize),
                    )
                } else {
                    seq![c] + strip_from(code, i + 1, LexState::Code)
                }
            }
            LexState::TemplateString => {
                if c == '`' {
                    strip_from(code, i + 1, LexState::Code)
                } else if c == '\\' && spec_get_char(code, i + 1) == '`' {
                    strip_from(code, i + 2, LexState::TemplateString)
                } else {
                    strip_from(code, i + 1, LexState::TemplateString)
                }
            }
            LexState::DoubleQuoteString => {
                if c == '"' {
                    strip_from(code, i + 1, LexState::Code)
                } else if c == '\\' && spec_get_char(code, i + 1) == '"' {
                    strip_from(code, i + 2, LexState::DoubleQuoteString)
                } else {
                    strip_from(code, i + 1, LexState::DoubleQuoteString)
                }
            }
            LexState::SingleQuoteString => {
                if c == '\'' {
                    strip_from(code, i + 1, LexState::Code)
                } else if c == '\\' && spec_get_char(code, i + 1) == '\'' {
                    strip_from(code, i + 2, LexState::SingleQuoteString)
                } else {
                    strip_from(code, i + 1, LexState::SingleQuoteString)
                }
            }
            LexState::BlockString(d) => {
                if is_block_close(code, i, d as int) {
                    strip_from(code, i + d + 2, LexState::Code)
                } else {
                    strip_from(code, i + 1, LexState::BlockString(d))
                }
            }
            LexState::LineComment => {
                if c == '\n' {
                    strip_from(code, i, LexState::Code)
                } else {
                    strip_from(code, i + 1, LexState::LineComment)
                }
            }
            LexState::BlockComment(d) => {
                if is_block_close(code, i, d as int) {
                    strip_from(code, i + d + 2, LexState::Code)
                } else {
                    strip_from(code, i + 1, LexState::BlockComment(d))
                }
            }
        }
    }
}

/// What stripping a whole source text yields.
pub open spec fn strip_spec(code: Seq<char>) -> Seq<char> {
    strip_from(code, 0, LexState::Code)
}

/// Counts the `=` run starting at `from`.
fn count_eq_run(code: &Vec<char>, from: usize) -> (k: usize)
    requires
        from <= code@.len(),
    ensures
        k == eq_run_len(code@, from as int),
        from + k <= code@.len(),
{
    let n = code.len();
    let mut k: usize = 0;
    while from + k < n && code[from + k] == '='
        invariant
            from + k <= n,
            eq_run_len(code@, from as int) == k + eq_run_len(code@, from as int + k as int),
        decreases code@.len() - from - k,
    {
        k += 1;
    }
    k
}

/// Removes comment bodies and string-literal bodies from `lua_code`, keeping
/// every other character in order.  Unterminated regions at end of input are
/// not errors: the scan stops and the output emitted so far is returned.
pub fn strip_comments_and_strings(lua_code: &Vec<char>) -> (r: Vec<char>)
    ensures
        r@ == strip_spec(lua_code@),
{
    let mut output: Vec<char> = Vec::new();
    let mut index: usize = 0;
    let mut state = LexState::Code;
    while index < lua_code.len()
        invariant
            index <= lua_code@.len(),
            strip_spec(lua_code@) == output@ + strip_from(lua_code@, index as int, state),
        decreases lua_code@.len() - index, lex_rank(state),
    {
        let c = lua_code[index];
        match state {
            LexState::Code => {
                if c == '`' {
                    state = LexState::TemplateString;
                    index += 1;
                } else if c == '"' {
                    state = LexState::DoubleQuoteString;
                    index += 1;
                } else if c == '\'' {
                    state = LexState::SingleQuoteString;
                    index += 1;
                } else if c == '-' && get(lua_code, index + 1) == '-' {
                    if get(lua_code, index + 2) == '[' {
                        let k = count_eq_run(lua_code, index + 3);
                        if get(lua_code, index + 3 + k) == '[' {
                            state = LexState::BlockComment(k);
                            index = index + 4 + k;
                        } else {
                            state = LexState::LineComment;
                            index = index + 2;
                        }
                    } else {
                        state = LexState::LineComment;
                        index = index + 2;
                    }
                } else if c == '[' {
                    let k = count_eq_run(lua_code, index + 1);
                    if get(lua_code, index + 1 + k) == '[' {
                        state = LexState::BlockString(k);
                        index = index + 2 + k;
                    } else {
                        output.push(c);
                        index += 1;
                        proof {
                            assert(output@ + strip_from(lua_code@, index as int, state)
                                =~= strip_spec(lua_code@));
                        }
                    }
                } else {
                    output.push(c);
                    index += 1;
                    proof {
                        assert(output@ + strip_from(lua_code@, index as int, state)
                            =~= strip_spec(lua_code@));
                    }
                }
            }
            LexState::TemplateString => {
                if c == '`' {
                    state = LexState::Code;
                    index += 1;
                } else if c == '\\' && get(lua_code, index + 1) == '`' {
                    index += 2;
                } else {
                    index += 1;
                }
            }
            LexState::DoubleQuoteString => {
                if c == '"' {
                    state = LexState::Code;
                    index += 1;
                } else if c == '\\' && get(lua_code, index + 1) == '"' {
                    index += 2;
                } else {
                    index += 1;
                }
            }
            LexState::SingleQuoteString => {
                if c == '\'' {
                    state = LexState::Code;
                    index += 1;
                } else if c == '\\' && get(lua_code, index + 1) == '\'' {
                    index += 2;
                } else {
                    index += 1;
                }
            }
            LexState::BlockString(depth) => {
                if is_end_of_block(lua_code, index, depth) {
                    state = LexState::Code;
                    index = index + depth + 2;
                } else {
                    index += 1;
                }
            }
            LexState::LineComment => {
                if c == '\n' {
                    state = LexState::Code;
                } else {
                    index += 1;
                }
            }
            LexState::BlockComment(depth) => {
                if is_end_of_block(lua_code, index, depth) {
                    state = LexState::Code;
                    index = index + depth + 2;
                } else {
                    index += 1;
                }
            }
        }
    }
    output
}

} // verus!
