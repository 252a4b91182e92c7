//! Byte-level JSON framing: string escaping, scanning a quoted string, and
//! the fixed byte patterns of the record and key documents.

use vstd::prelude::*;

verus! {

/// `"`
pub const QUOTE: u8 = 34;

/// `\`
pub const BACKSLASH: u8 = 92;

/// How one byte of a string value is written inside a JSON string: quotes and
/// backslashes get a backslash in front, everything else passes through.
pub open spec fn esc_byte(b: u8) -> Seq<u8> {
    if b == QUOTE || b == BACKSLASH {
        seq![BACKSLASH, b]
    } else {
        seq![b]
    }
}

/// The escaped form of a whole string value.
pub open spec fn esc(s: Seq<u8>) -> Seq<u8>
    decreases s.len(),
{
    if s.len() == 0 {
        Seq::empty()
    } else {
        esc_byte(s[0]) + esc(s.skip(1))
    }
}

proof fn lemma_esc_single(b: u8)
    ensures
        esc(seq![b]) == esc_byte(b),
{
    assert(seq![b].skip(1) =~= Seq::<u8>::empty());
    assert(esc(Seq::<u8>::empty()) =~= Seq::<u8>::empty());
    assert(esc(seq![b]) =~= esc_byte(b) + esc(Seq::<u8>::empty()));
    assert(esc_byte(b) + Seq::<u8>::empty() =~= esc_byte(b));
}

/// Escaping leaves a string without quotes or backslashes unchanged: for
/// ordinary identifiers, the escaped form in a key or payload is the
/// identifier itself.
pub proof fn lemma_esc_plain(s: Seq<u8>)
    requires
        forall|i: int| 0 <= i < s.len() ==> s[i] != QUOTE && s[i] != BACKSLASH,
    ensures
        esc(s) == s,
    decreases s.len(),
{
    if s.len() == 0 {
        assert(esc(s) =~= s);
    } else {
        assert(forall|k: int| 0 <= k < s.len() - 1 ==> s.skip(1)[k] == s[k + 1]);
        lemma_esc_plain(s.skip(1));
        assert(seq![s[0]] + s.skip(1) =~= s);
    }
}

proof fn lemma_esc_app(a: Seq<u8>, b: Seq<u8>)
    ensures
        esc(a + b) == esc(a) + esc(b),
    decreases a.len(),
{
    if a.len() == 0 {
        assert(a + b =~= b);
        assert(esc(a) + esc(b) =~= esc(b));
    } else {
        assert((a + b).skip(1) =~= a.skip(1) + b);
        lemma_esc_app(a.skip(1), b);
        assert(esc_byte((a + b)[0]) + (esc(a.skip(1)) + esc(b)) =~= (esc_byte(a[0]) + esc(
            a.skip(1),
        )) + esc(b));
    }
}

/// Read a JSON string body up to its closing quote, undoing the escaping.
/// Returns the decoded bytes and how many input bytes were consumed, the
/// closing quote included; `None` when no closing quote is reached.
pub open spec fn scan_string(s: Seq<u8>) -> Option<(Seq<u8>, int)>
    decreases s.len(),
{
    if s.len() == 0 {
        None
    } else if s[0] == QUOTE {
        Some((Seq::empty(), 1int))
    } else if s[0] == BACKSLASH {
        if s.len() < 2 {
            None
        } else {
            match scan_string(s.skip(2)) {
                Some(p) => Some((seq![s[1]] + p.0, p.1 + 2)),
                None => None,
            }
        }
    } else {
        match scan_string(s.skip(1)) {
            Some(p) => Some((seq![s[0]] + p.0, p.1 + 1)),
            None => None,
        }
    }
}

/// Scanning an escaped string with its closing quote recovers the string:
/// the heart of the serialize-then-parse round trip.
pub proof fn lemma_scan_esc(p: Seq<u8>, rest: Seq<u8>)
    ensures
        scan_string(esc(p) + seq![QUOTE] + rest) == Some((p, esc(p).len() + 1 as int)),
    decreases p.len(),
{
    let s = esc(p) + seq![QUOTE] + rest;
    if p.len() == 0 {
        assert(s[0] == QUOTE);
    } else {
        lemma_scan_esc(p.skip(1), rest);
        if p[0] == QUOTE || p[0] == BACKSLASH {
            assert(s[0] == BACKSLASH);
            assert(s[1] == p[0]);
            assert(s.skip(2) =~= esc(p.skip(1)) + seq![QUOTE] + rest);
            assert(seq![p[0]] + p.skip(1) =~= p);
        } else {
            assert(s[0] == p[0]);
            assert(s.skip(1) =~= esc(p.skip(1)) + seq![QUOTE] + rest);
            assert(seq![p[0]] + p.skip(1) =~= p);
        }
    }
}

/// Append every byte of `s` to `out`.
pub fn push_all(out: &mut Vec<u8>, s: &[u8])
    ensures
        final(out)@ == old(out)@ + s@,
{
    let mut j: usize = 0;
    proof {
        assert(old(out)@ + s@.subrange(0, 0) =~= old(out)@);
    }
    while j < s.len()
        invariant
            j <= s@.len(),
            out@ == old(out)@ + s@.subrange(0, j as int),
        decreases s@.len() - j,
    {
        out.push(s[j]);
        proof {
            assert(old(out)@ + s@.subrange(0, j + 1) =~= (old(out)@ + s@.subrange(
                0,
                j as int,
            )).push(s@[j as int]));
        }
        j = j + 1;
    }
    proof {
        assert(s@.subrange(0, s@.len() as int) =~= s@);
    }
}

/// Append the escaped form of `s` to `out`.
pub fn push_escaped(out: &mut Vec<u8>, s: &[u8])
    ensures
        final(out)@ == old(out)@ + esc(s@),
{
    let mut j: usize = 0;
    proof {
        assert(old(out)@ + esc(s@.subrange(0, 0)) =~= old(out)@);
    }
    while j < s.len()
        invariant
            j <= s@.len(),
            out@ == old(out)@ + esc(s@.subrange(0, j as int)),
        decreases s@.len() - j,
    {
        let b = s[j];
        let ghost pre = s@.subrange(0, j as int);
        if b == QUOTE || b == BACKSLASH {
            out.push(BACKSLASH);
            out.push(b);
        } else {
            out.push(b);
        }
        proof {
            assert(s@.subrange(0, j + 1) =~= pre + seq![s@[j as int]]);
            lemma_esc_app(pre, seq![s@[j as int]]);
            lemma_esc_single(s@[j as int]);
            assert(out@ =~= old(out)@ + (esc(pre) + esc_byte(s@[j as int])));
        }
        j = j + 1;
    }
    proof {
        assert(s@.subrange(0, s@.len() as int) =~= s@);
    }
}

/// Read the JSON string body that starts at `start`, undoing the escaping.
/// On success, gives the decoded bytes and the index just past the closing
/// quote; exactly the result of `scan_string` on the input from `start` on.
pub fn scan_from(s: &[u8], start: usize) -> (r: Option<(Vec<u8>, usize)>)
    requires
        start <= s@.len(),
    ensures
        match r {
            Some(p) => {
                &&& scan_string(s@.skip(start as int)) == Some((p.0@, p.1 - start as int))
                &&& start < p.1 <= s@.len()
            },
            None => scan_string(s@.skip(start as int)) is None,
        },
{
    let n = s.len();
    let mut acc: Vec<u8> = Vec::new();
    let mut i: usize = start;
    proof {
        if let Some(p) = scan_string(s@.skip(start as int)) {
            assert(Seq::<u8>::empty() + p.0 =~= p.0);
        }
    }
    loop
        invariant
            start <= i <= n,
            n == s@.len(),
            scan_string(s@.skip(start as int)) == (match scan_string(s@.skip(i as int)) {
                Some(p) => Some((acc@ + p.0, i - start + p.1)),
                None => None::<(Seq<u8>, int)>,
            }),
        decreases n - i,
    {
        if i == n {
            proof {
                assert(s@.skip(i as int) =~= Seq::<u8>::empty());
            }
            return None;
        }
        let b = s[i];
        if b == QUOTE {
            proof {
                assert(acc@ + Seq::<u8>::empty() =~= acc@);
            }
            return Some((acc, i + 1));
        }
        if b == BACKSLASH {
            if n - i < 2 {
                return None;
            }
            let c = s[i + 1];
            proof {
                assert(s@.skip(i as int).skip(2) =~= s@.skip(i + 2));
                assert(s@.skip(i as int)[1] == c);
                if let Some(p) = scan_string(s@.skip(i + 2)) {
                    assert(acc@ + (seq![c] + p.0) =~= acc@.push(c) + p.0);
                }
            }
            acc.push(c);
            i = i + 2;
        } else {
            proof {
                assert(s@.skip(i as int).skip(1) =~= s@.skip(i + 1));
                if let Some(p) = scan_string(s@.skip(i + 1)) {
                    assert(acc@ + (seq![b] + p.0) =~= acc@.push(b) + p.0);
                }
            }
            acc.push(b);
            i = i + 1;
        }
    }
}

/// Does `pat` stand in `s` at position `i`?
pub fn match_at(s: &[u8], i: usize, pat: &[u8]) -> (r: bool)
    requires
        i <= s@.len(),
    ensures
        r == (i + pat@.len() <= s@.len() && s@.subrange(i as int, i + pat@.len()) == pat@),
{
    let n = s.len();
    if pat.len() > n - i {
        return false;
    }
    let mut j: usize = 0;
    while j < pat.len()
        invariant
            j <= pat@.len(),
            n == s@.len(),
            i + pat@.len() <= n,
            forall|k: int| 0 <= k < j ==> s@[i + k] == pat@[k],
        decreases pat@.len() - j,
    {
        if s[i + j] != pat[j] {
            proof {
                assert(s@.subrange(i as int, i + pat@.len())[j as int] == s@[i + j]);
            }
            return false;
        }
        j = j + 1;
    }
    proof {
        assert(s@.subrange(i as int, i + pat@.len()) =~= pat@);
    }
    true
}

} // verus!
