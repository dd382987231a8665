//! CommandTokenizer: splits a raw command string into argv-style tokens,
//! aware of shell quoting.
//!
//! Whitespace (space or tab) outside quotes separates tokens, and tokens are
//! never empty. Single quotes suppress all special meaning until the matching
//! single quote. Double quotes suppress whitespace splitting. Outside single
//! quotes, a backslash inserts the following character literally (the
//! backslash itself is dropped); inside single quotes it is literal.

use vstd::prelude::*;
use crate::types::BenchError;

verus! {

/// The tokenizer as a recursive step function over the characters of the
/// command, carrying its whole state: the current position, whether a single
/// or double quote is open, the token built so far, and the finished tokens.
/// `None` means the string ended while a quote was open.
pub open spec fn tokens_from(
    s: Seq<char>,
    i: int,
    in_single: bool,
    in_double: bool,
    cur: Seq<char>,
    done: Seq<Seq<char>>,
) -> Option<Seq<Seq<char>>>
    decreases s.len() - i,
{
    if i < 0 || i >= s.len() {
        if in_single || in_double {
            None
        } else if cur.len() > 0 {
            Some(done.push(cur))
        } else {
            Some(done)
        }
    } else {
        let c = s[i];
        if c == '\'' && !in_double {
            tokens_from(s, i + 1, !in_single, in_double, cur, done)
        } else if c == '"' && !in_single {
            tokens_from(s, i + 1, in_single, !in_double, cur, done)
        } else if (c == ' ' || c == '\t') && !in_single && !in_double {
            if cur.len() > 0 {
                tokens_from(s, i + 1, in_single, in_double, Seq::empty(), done.push(cur))
            } else {
                tokens_from(s, i + 1, in_single, in_double, cur, done)
            }
        } else if c == '\\' && !in_single {
            if i + 1 < s.len() {
                tokens_from(s, i + 2, in_single, in_double, cur.push(s[i + 1]), done)
            } else {
                tokens_from(s, i + 1, in_single, in_double, cur, done)
            }
        } else {
            tokens_from(s, i + 1, in_single, in_double, cur.push(c), done)
        }
    }
}

/// What tokenizing a whole command string yields: `None` for an unclosed
/// quote, otherwise the (possibly empty) token list.
pub open spec fn spec_tokens(s: Seq<char>) -> Option<Seq<Seq<char>>> {
    tokens_from(s, 0, false, false, Seq::empty(), Seq::empty())
}

/// Helper for `lemma_tokens_nonempty`: the tokenizer only ever finishes a
/// token that holds at least one character.
proof fn lemma_tokens_from_nonempty(
    s: Seq<char>,
    i: int,
    in_single: bool,
    in_double: bool,
    cur: Seq<char>,
    done: Seq<Seq<char>>,
)
    requires
        forall|k: int| 0 <= k < done.len() ==> #[trigger] done[k].len() > 0,
    ensures
        tokens_from(s, i, in_single, in_double, cur, done) matches Some(toks) ==> forall|k: int|
            0 <= k < toks.len() ==> #[trigger] toks[k].len() > 0,
    decreases s.len() - i,
{
    if i < 0 || i >= s.len() {
    } else {
        let c = s[i];
        if c == '\'' && !in_double {
            lemma_tokens_from_nonempty(s, i + 1, !in_single, in_double, cur, done);
        } else if c == '"' && !in_single {
            lemma_tokens_from_nonempty(s, i + 1, in_single, !in_double, cur, done);
        } else if (c == ' ' || c == '\t') && !in_single && !in_double {
            if cur.len() > 0 {
                lemma_tokens_from_nonempty(
                    s,
                    i + 1,
                    in_single,
                    in_double,
                    Seq::empty(),
                    done.push(cur),
                );
            } else {
                lemma_tokens_from_nonempty(s, i + 1, in_single, in_double, cur, done);
            }
        } else if c == '\\' && !in_single {
            if i + 1 < s.len() {
                lemma_tokens_from_nonempty(s, i + 2, in_single, in_double, cur.push(s[i + 1]), done);
            } else {
                lemma_tokens_from_nonempty(s, i + 1, in_single, in_double, cur, done);
            }
        } else {
            lemma_tokens_from_nonempty(s, i + 1, in_single, in_double, cur.push(c), done);
        }
    }
}

/// Tokens are never empty: every token the tokenizer yields holds at least
/// one character.
pub proof fn lemma_tokens_nonempty(s: Seq<char>)
    ensures
        spec_tokens(s) matches Some(toks) ==> forall|k: int|
            0 <= k < toks.len() ==> #[trigger] toks[k].len() > 0,
{
    lemma_tokens_from_nonempty(s, 0, false, false, Seq::empty(), Seq::empty());
}

/// Split a command string into argv-style tokens.
///
/// Fails with `UnclosedQuote` if the string ends inside a quote, and with
/// `EmptyCommand` if no token remains (all-whitespace input).
pub fn shell_split(cmd: &str) -> (r: Result<Vec<String>, BenchError>)
    ensures
        r is Ok <==> (spec_tokens(cmd@) matches Some(toks) && toks.len() > 0),
        r matches Ok(parts) ==> spec_tokens(cmd@) == Some(parts.deep_view()),
        r == Err::<Vec<String>, BenchError>(BenchError::UnclosedQuote) <==> spec_tokens(cmd@) is None,
        r == Err::<Vec<String>, BenchError>(BenchError::EmptyCommand) <==> spec_tokens(
            cmd@,
        ) == Some(Seq::<Seq<char>>::empty()),
        r matches Ok(parts) ==> forall|k: int|
            0 <= k < parts.deep_view().len() ==> #[trigger] parts.deep_view()[k].len() > 0,
{
    proof {
        lemma_tokens_nonempty(cmd@);
    }
    let n = cmd.unicode_len();
    let mut i: usize = 0;
    let mut in_single = false;
    let mut in_double = false;
    let mut cur = String::new();
    let mut parts: Vec<String> = Vec::new();

    proof {
        assert(cur@ =~= Seq::<char>::empty());
        assert(parts.deep_view() =~= Seq::<Seq<char>>::empty());
    }

    while i < n
        invariant
            n == cmd@.len(),
            i <= n,
            tokens_from(cmd@, i as int, in_single, in_double, cur@, parts.deep_view())
                == spec_tokens(cmd@),
        decreases n - i,
    {
        let ghost done_pre = parts.deep_view();
        let c = cmd.get_char(i);
        if c == '\'' && !in_double {
            in_single = !in_single;
            i += 1;
        } else if c == '"' && !in_single {
            in_double = !in_double;
            i += 1;
        } else if (c == ' ' || c == '\t') && !in_single && !in_double {
            if cur.as_str().unicode_len() > 0 {
                let finished = cur;
                cur = String::new();
                parts.push(finished);
                proof {
                    assert(parts.deep_view() =~= done_pre.push(finished@));
                }
            }
            i += 1;
        } else if c == '\\' && !in_single {
            if i + 1 < n {
                let escaped = cmd.get_char(i + 1);
                cur.push(escaped);
                i += 2;
            } else {
                i += 1;
            }
        } else {
            cur.push(c);
            i += 1;
        }
    }

    if in_single || in_double {
        return Err(BenchError::UnclosedQuote);
    }

    if cur.as_str().unicode_len() > 0 {
        let ghost done_pre = parts.deep_view();
        let last = cur;
        parts.push(last);
        proof {
            assert(parts.deep_view() =~= done_pre.push(last@));
        }
    }

    if parts.len() == 0 {
        proof {
            assert(parts.deep_view() =~= Seq::<Seq<char>>::empty());
        }
        return Err(BenchError::EmptyCommand);
    }

    Ok(parts)
}

} // verus!
