//! Reading a per-core user-time value out of kernel status text. The text
//! arrives as lines (the caller does the file I/O); the first line that
//! starts with the core's label and carries a token decides the result:
//! the token's numeric value, or nothing when it is not a number.

use crate::decimal::dec_str;
use crate::decimal::parse_u64_range;
use crate::decimal::parsed_u64;
use crate::decimal::push_dec;
use vstd::prelude::*;

verus! {

/// `p` is a prefix of `s`.
pub open spec fn has_prefix(s: Seq<char>, p: Seq<char>) -> bool {
    s.len() >= p.len() && s.subrange(0, p.len() as int) == p
}

/// The blank characters that separate fields in kernel status text.
pub open spec fn is_space(c: char) -> bool {
    c == ' ' || c == '\t'
}

/// The first index at or after `i` holding a non-blank, or the length.
pub open spec fn skip_spaces(s: Seq<char>, i: int) -> int
    decreases s.len() - i,
{
    if i < 0 || i >= s.len() {
        s.len() as int
    } else if is_space(s[i]) {
        skip_spaces(s, i + 1)
    } else {
        i
    }
}

/// The first index at or after `i` holding a blank, or the length.
pub open spec fn token_end(s: Seq<char>, i: int) -> int
    decreases s.len() - i,
{
    if i < 0 || i >= s.len() {
        s.len() as int
    } else if is_space(s[i]) {
        i
    } else {
        token_end(s, i + 1)
    }
}

/// The first blank-separated token at or after `from` (empty when the
/// rest of the line is blank).
pub open spec fn first_token(s: Seq<char>, from: int) -> Seq<char> {
    s.subrange(skip_spaces(s, from), token_end(s, skip_spaces(s, from)))
}

/// The label a core's line starts with: "cpu" and the core number.
pub open spec fn cpu_prefix(core: int) -> Seq<char> {
    "cpu"@ + dec_str(core)
}

/// Whether this line reports for `core`: it starts with the core's label
/// and carries at least one token after it.
pub open spec fn line_reports(line: Seq<char>, core: int) -> bool {
    has_prefix(line, cpu_prefix(core)) && first_token(line, cpu_prefix(core).len() as int).len()
        > 0
}

/// What the status text yields for `core`: the first reporting line's
/// token read as a number; nothing when no line reports, or when the
/// token is not a number (a malformed counter is a failure, not a value).
pub open spec fn cpu_user_spec(lines: Seq<Seq<char>>, core: int) -> Option<u64>
    decreases lines.len(),
{
    if lines.len() == 0 {
        None
    } else if line_reports(lines[0], core) {
        parsed_u64(first_token(lines[0], cpu_prefix(core).len() as int))
    } else {
        cpu_user_spec(lines.drop_first(), core)
    }
}

/// `p` is a prefix of `s`, decided character by character.
fn str_has_prefix(s: &str, p: &str) -> (r: bool)
    ensures
        r == has_prefix(s@, p@),
{
    let sl = s.unicode_len();
    let pl = p.unicode_len();
    if pl > sl {
        return false;
    }
    let mut i: usize = 0;
    while i < pl
        invariant
            i <= pl <= sl,
            sl == s@.len(),
            pl == p@.len(),
            forall|j: int| 0 <= j < i ==> s@[j] == p@[j],
        decreases pl - i,
    {
        if s.get_char(i) != p.get_char(i) {
            proof {
                if has_prefix(s@, p@) {
                    assert(s@.subrange(0, p@.len() as int)[i as int] == p@[i as int]);
                    assert(false);
                }
            }
            return false;
        }
        i = i + 1;
    }
    proof {
        assert(s@.subrange(0, p@.len() as int) =~= p@);
    }
    true
}

fn is_space_char(c: char) -> (r: bool)
    ensures
        r == is_space(c),
{
    c == ' ' || c == '\t'
}

/// Find the user-time value for `core` in status-text lines: the first
/// value on the first line labelled with the core.
pub fn cpu_user_value(lines: &Vec<String>, core: u8) -> (r: Option<u64>)
    ensures
        r == cpu_user_spec(lines.deep_view(), core as int),
{
    let mut prefix = String::from_str("cpu");
    push_dec(&mut prefix, core as u128);
    let plen = prefix.as_str().unicode_len();
    proof {
        assert(lines.deep_view().skip(0) =~= lines.deep_view());
    }
    let mut li: usize = 0;
    while li < lines.len()
        invariant
            li <= lines@.len(),
            prefix@ == cpu_prefix(core as int),
            plen == prefix@.len(),
            cpu_user_spec(lines.deep_view(), core as int) == cpu_user_spec(
                lines.deep_view().skip(li as int),
                core as int,
            ),
        decreases lines@.len() - li,
    {
        let line: &String = &lines[li];
        proof {
            assert(lines.deep_view().skip(li as int)[0] == line@);
        }
        let mut reported = false;
        let mut value: Option<u64> = None;
        if str_has_prefix(line.as_str(), prefix.as_str()) {
            let llen = line.as_str().unicode_len();
            let mut a: usize = plen;
            while a < llen && is_space_char(line.as_str().get_char(a))
                invariant
                    plen <= a <= llen,
                    llen == line@.len(),
                    skip_spaces(line@, plen as int) == skip_spaces(line@, a as int),
                decreases llen - a,
            {
                a = a + 1;
            }
            proof {
                assert(skip_spaces(line@, a as int) == a as int);
            }
            let mut b: usize = a;
            while b < llen && !is_space_char(line.as_str().get_char(b))
                invariant
                    a <= b <= llen,
                    llen == line@.len(),
                    token_end(line@, a as int) == token_end(line@, b as int),
                decreases llen - b,
            {
                b = b + 1;
            }
            proof {
                assert(token_end(line@, b as int) == b as int);
            }
            if b > a {
                reported = true;
                value = parse_u64_range(line.as_str(), a, b);
                proof {
                    assert(first_token(line@, plen as int) =~= line@.subrange(
                        a as int,
                        b as int,
                    ));
                    assert(line_reports(line@, core as int));
                }
            } else {
                proof {
                    assert(first_token(line@, plen as int).len() == 0);
                    assert(!line_reports(line@, core as int));
                }
            }
        } else {
            proof {
                assert(!line_reports(line@, core as int));
            }
        }
        if reported {
            return value;
        }
        proof {
            assert(lines.deep_view().skip(li as int).drop_first() =~= lines.deep_view().skip(
                li as int + 1,
            ));
        }
        li = li + 1;
    }
    proof {
        assert(lines.deep_view().skip(li as int).len() == 0);
    }
    None
}

} // verus!
