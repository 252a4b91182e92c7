//! Standard-alphabet base64 decoding, used to read the credential part of a
//! `Basic` authorization header.

use vstd::prelude::*;

verus! {

/// The `=` padding byte.
pub const PAD: u8 = 61;

/// Value of a standard-alphabet base64 character; 64 marks a byte outside the
/// alphabet (padding included).
pub open spec fn sextet(b: u8) -> u8 {
    if 65 <= b && b <= 90 {
        (b - 65) as u8
    } else if 97 <= b && b <= 122 {
        (b - 71) as u8
    } else if 48 <= b && b <= 57 {
        (b + 4) as u8
    } else if b == 43 {
        62
    } else if b == 47 {
        63
    } else {
        64
    }
}

/// The three bytes packed into one full group of four sextet values.
pub open spec fn group3(v0: u8, v1: u8, v2: u8, v3: u8) -> Seq<u8>
    recommends
        v0 < 64,
        v1 < 64,
        v2 < 64,
        v3 < 64,
{
    seq![
        (v0 * 4 + v1 / 16) as u8,
        ((v1 % 16) * 16 + v2 / 4) as u8,
        ((v2 % 4) * 64 + v3) as u8,
    ]
}

/// Base64 decoding: groups of four alphabet bytes, with `=` padding allowed
/// only in the final group. Anything else is rejected.
pub open spec fn b64_decode(s: Seq<u8>) -> Option<Seq<u8>>
    decreases s.len(),
{
    if s.len() == 0 {
        Some(Seq::empty())
    } else if s.len() < 4 {
        None
    } else {
        let v0 = sextet(s[0]);
        let v1 = sextet(s[1]);
        if v0 == 64 || v1 == 64 {
            None
        } else if s[3] == PAD {
            if s.len() != 4 {
                None
            } else if s[2] == PAD {
                Some(seq![(v0 * 4 + v1 / 16) as u8])
            } else if sextet(s[2]) == 64 {
                None
            } else {
                let v2 = sextet(s[2]);
                Some(seq![(v0 * 4 + v1 / 16) as u8, ((v1 % 16) * 16 + v2 / 4) as u8])
            }
        } else {
            let v2 = sextet(s[2]);
            let v3 = sextet(s[3]);
            if v2 == 64 || v3 == 64 {
                None
            } else {
                match b64_decode(s.skip(4)) {
                    Some(rest) => Some(group3(v0, v1, v2, v3) + rest),
                    None => None,
                }
            }
        }
    }
}

fn sextet_x(b: u8) -> (r: u8)
    ensures
        r == sextet(b),
{
    if 65 <= b && b <= 90 {
        b - 65
    } else if 97 <= b && b <= 122 {
        b - 71
    } else if 48 <= b && b <= 57 {
        b + 4
    } else if b == 43 {
        62
    } else if b == 47 {
        63
    } else {
        64
    }
}

/// Decode a base64 byte string; `None` exactly where `b64_decode` rejects it.
pub fn decode(s: &[u8]) -> (r: Option<Vec<u8>>)
    ensures
        match r {
            Some(v) => b64_decode(s@) == Some(v@),
            None => b64_decode(s@) is None,
        },
{
    let mut acc: Vec<u8> = Vec::new();
    let mut i: usize = 0;
    proof {
        assert(s@.skip(0) =~= s@);
        if let Some(d) = b64_decode(s@) {
            assert(Seq::<u8>::empty() + d =~= d);
        }
    }
    loop
        invariant
            i <= s@.len(),
            b64_decode(s@) == (match b64_decode(s@.skip(i as int)) {
                Some(d) => Some(acc@ + d),
                None => None::<Seq<u8>>,
            }),
        decreases s@.len() - i,
    {
        if i == s.len() {
            proof {
                assert(s@.skip(i as int) =~= Seq::<u8>::empty());
                assert(acc@ + Seq::<u8>::empty() =~= acc@);
            }
            return Some(acc);
        }
        if s.len() - i < 4 {
            return None;
        }
        let v0 = sextet_x(s[i]);
        let v1 = sextet_x(s[i + 1]);
        if v0 == 64 || v1 == 64 {
            return None;
        }
        let b2 = s[i + 2];
        let b3 = s[i + 3];
        if b3 == PAD {
            if s.len() - i != 4 {
                return None;
            }
            if b2 == PAD {
                let ghost prev = acc@;
                acc.push(v0 * 4 + v1 / 16);
                proof {
                    assert(acc@ =~= prev + seq![(v0 * 4 + v1 / 16) as u8]);
                }
                return Some(acc);
            }
            let v2 = sextet_x(b2);
            if v2 == 64 {
                return None;
            }
            let ghost prev = acc@;
            acc.push(v0 * 4 + v1 / 16);
            acc.push((v1 % 16) * 16 + v2 / 4);
            proof {
                assert(acc@ =~= prev + seq![
                    (v0 * 4 + v1 / 16) as u8,
                    ((v1 % 16) * 16 + v2 / 4) as u8,
                ]);
            }
            return Some(acc);
        }
        let v2 = sextet_x(b2);
        let v3 = sextet_x(b3);
        if v2 == 64 || v3 == 64 {
            return None;
        }
        proof {
            assert(s@.skip(i as int).skip(4) =~= s@.skip(i + 4));
        }
        let ghost prev = acc@;
        acc.push(v0 * 4 + v1 / 16);
        acc.push((v1 % 16) * 16 + v2 / 4);
        acc.push((v2 % 4) * 64 + v3);
        proof {
            let g = group3(sextet(s@[i as int]), sextet(s@[i + 1]), sextet(s@[i + 2]), sextet(s@[i + 3]));
            assert(acc@ =~= prev + g);
            if let Some(d) = b64_decode(s@.skip(i + 4)) {
                assert(prev + (g + d) =~= (prev + g) + d);
            }
        }
        i = i + 4;
    }
}

} // verus!
