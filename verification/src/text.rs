use vstd::prelude::*;
use vstd::string::*;

verus! {

/// Relies on String::push: appends exactly one character.
#[verifier::external_body]
pub fn push_char(s: &mut String, c: char)
    ensures
        final(s)@ == old(s)@.push(c),
{
    s.push(c);
}

/// Build a `String` holding exactly the given characters.
pub fn string_of_chars(v: &Vec<char>) -> (s: String)
    ensures
        s@ == v@,
{
    let mut s = String::new();
    let mut i: usize = 0;
    while i < v.len()
        invariant
            i <= v@.len(),
            s@ == v@.take(i as int),
        decreases v@.len() - i,
    {
        push_char(&mut s, v[i]);
        i = i + 1;
        proof {
            assert(s@ =~= v@.take(i as int));
        }
    }
    proof {
        assert(s@ =~= v@);
    }
    s
}

/// The characters of a string slice, as a vector.
pub fn chars_of_str(input: &str) -> (v: Vec<char>)
    ensures
        v@ == input@,
{
    let n = input.unicode_len();
    let mut chars: Vec<char> = Vec::new();
    let mut i: usize = 0;
    while i < n
        invariant
            i <= n,
            n == input@.len(),
            chars@ == input@.take(i as int),
        decreases n - i,
    {
        let c = input.get_char(i);
        chars.push(c);
        i = i + 1;
        proof {
            assert(chars@ =~= input@.take(i as int));
        }
    }
    proof {
        assert(chars@ =~= input@);
    }
    chars
}

/// Clone a string, keeping its characters.
pub fn clone_string(s: &String) -> (r: String)
    ensures
        r@ == s@,
        r == *s,
{
    s.clone()
}

/// Where the line that starts at `pos` ends: the next newline, or the end.
pub open spec fn line_break(s: Seq<char>, pos: int) -> int
    decreases s.len() - pos,
{
    if 0 <= pos < s.len() && s[pos] != '\n' {
        line_break(s, pos + 1)
    } else {
        pos
    }
}

/// A line with a trailing carriage return stripped.
pub open spec fn strip_cr(l: Seq<char>) -> Seq<char> {
    if l.len() > 0 && l.last() == '\r' {
        l.drop_last()
    } else {
        l
    }
}

/// The lines of a text: split at `\n`, each stripped of a trailing `\r`,
/// with no empty line after a final newline.
pub open spec fn spec_lines(s: Seq<char>) -> Seq<Seq<char>>
    decreases s.len(),
{
    if s.len() == 0 {
        Seq::empty()
    } else {
        let brk = line_break(s, 0);
        if 0 <= brk < s.len() {
            seq![strip_cr(s.subrange(0, brk))] + spec_lines(
                s.subrange(brk + 1, s.len() as int),
            )
        } else {
            seq![strip_cr(s.subrange(0, s.len() as int))]
        }
    }
}

proof fn lemma_line_break_bounds(s: Seq<char>, pos: int)
    requires
        0 <= pos <= s.len(),
    ensures
        pos <= line_break(s, pos) <= s.len(),
    decreases s.len() - pos,
{
    if pos < s.len() && s[pos] != '\n' {
        lemma_line_break_bounds(s, pos + 1);
    }
}

/// The views of a vector of strings.
pub open spec fn strings_view(v: Seq<String>) -> Seq<Seq<char>> {
    v.map(|_i: int, l: String| l@)
}

/// Split a text into its lines, from position `start` on.
fn split_lines_from(chars: &Vec<char>, start: usize) -> (r: Vec<String>)
    requires
        start <= chars@.len() < usize::MAX,
    ensures
        strings_view(r@) == spec_lines(chars@.subrange(start as int, chars@.len() as int)),
    decreases chars@.len() - start,
{
    let n = chars.len();
    let ghost sub = chars@.subrange(start as int, n as int);
    if start == n {
        let r: Vec<String> = Vec::new();
        proof {
            assert(strings_view(r@) =~= spec_lines(sub));
        }
        return r;
    }
    // find the line break, relative to `sub`
    let mut j: usize = 0;
    loop
        invariant
            start < n == chars@.len() < usize::MAX,
            sub == chars@.subrange(start as int, n as int),
            0 <= j <= sub.len(),
            start + j <= n,
            line_break(sub, j as int) == line_break(sub, 0),
        ensures
            0 <= j <= sub.len(),
            start + j <= n,
            j as int == line_break(sub, 0),
        decreases sub.len() - j,
    {
        if start + j < n {
            let c = chars[start + j];
            proof {
                assert(sub[j as int] == chars@[start + j]);
            }
            if c != '\n' {
                j = j + 1;
            } else {
                break;
            }
        } else {
            break;
        }
    }
    let brk = j;
    proof {
        lemma_line_break_bounds(sub, 0);
    }
    // collect the line, stripping one trailing carriage return
    let mut cur: Vec<char> = Vec::new();
    let mut k: usize = 0;
    while k < brk
        invariant
            brk <= sub.len(),
            start + brk <= n == chars@.len(),
            sub == chars@.subrange(start as int, n as int),
            k <= brk,
            cur@ == sub.subrange(0, brk as int).take(k as int),
        decreases brk - k,
    {
        cur.push(chars[start + k]);
        k = k + 1;
        proof {
            assert(sub[k - 1] == chars@[start + k - 1]);
            assert(cur@ =~= sub.subrange(0, brk as int).take(k as int));
        }
    }
    proof {
        assert(cur@ =~= sub.subrange(0, brk as int));
    }
    if cur.len() > 0 {
        let lastc = cur[cur.len() - 1];
        if lastc == '\r' {
            cur.pop();
        }
    }
    proof {
        assert(cur@ =~= strip_cr(sub.subrange(0, brk as int)));
    }
    let first = string_of_chars(&cur);
    let mut out: Vec<String> = Vec::new();
    out.push(first);
    if start + brk < n {
        let rest = split_lines_from(chars, start + brk + 1);
        let ghost out_before = out@;
        let ghost rest_before = rest@;
        let mut ri: usize = 0;
        while ri < rest.len()
            invariant
                ri <= rest_before.len(),
                rest@ == rest_before,
                out@ == out_before + rest_before.take(ri as int),
            decreases rest_before.len() - ri,
        {
            let item = clone_string(&rest[ri]);
            out.push(item);
            ri = ri + 1;
            proof {
                assert(out@ =~= out_before + rest_before.take(ri as int));
            }
        }
        proof {
            assert(rest_before.take(rest_before.len() as int) =~= rest_before);
            assert(out@ == out_before + rest_before);
            assert(chars@.subrange(start + brk + 1, n as int) =~= sub.subrange(
                brk + 1,
                sub.len() as int,
            ));
            let lhs = strings_view(out@);
            let rhs = spec_lines(sub);
            assert(strings_view(rest_before) == spec_lines(
                sub.subrange(brk + 1, sub.len() as int),
            ));
            assert(lhs.len() == 1 + rest_before.len());
            assert forall|q: int| 0 <= q < lhs.len() implies lhs[q] == rhs[q] by {
                if q == 0 {
                    assert(out@[0] == first);
                    assert(lhs[0] == first@);
                } else {
                    assert(out@[q] == rest_before[q - 1]);
                    assert(lhs[q] == rest_before[q - 1]@);
                    assert(rhs[q] == strings_view(rest_before)[q - 1]);
                    assert(strings_view(rest_before)[q - 1] == rest_before[q - 1]@);
                }
            }
            assert(lhs =~= rhs);
        }
    } else {
        proof {
            assert(sub.subrange(0, sub.len() as int) =~= sub);
            assert(strings_view(out@) =~= spec_lines(sub));
        }
    }
    out
}

/// Split a text into its lines: split at `\n`, strip one trailing `\r` of
/// each line, no empty line after a final newline.
pub fn split_lines(chars: &Vec<char>) -> (r: Vec<String>)
    requires
        chars@.len() < usize::MAX,
    ensures
        strings_view(r@) == spec_lines(chars@),
{
    let r = split_lines_from(chars, 0);
    proof {
        assert(chars@.subrange(0, chars@.len() as int) =~= chars@);
    }
    r
}

} // verus!
