use vstd::prelude::*;

verus! {

/// Whether the pattern occurs in the text at position `i`.
pub open spec fn match_at(text: Seq<u8>, pat: Seq<u8>, i: int) -> bool {
    &&& 0 <= i
    &&& i + pat.len() <= text.len()
    &&& text.subrange(i, i + pat.len()) == pat
}

/// The text with every occurrence of the pattern replaced by the value,
/// scanning left to right without overlap; an empty pattern replaces
/// nothing.
pub open spec fn replace_spec(text: Seq<u8>, pat: Seq<u8>, val: Seq<u8>) -> Seq<u8>
    decreases text.len(),
{
    if pat.len() == 0 || text.len() < pat.len() {
        text
    } else if text.subrange(0, pat.len() as int) == pat {
        val + replace_spec(text.skip(pat.len() as int), pat, val)
    } else {
        text.subrange(0, 1) + replace_spec(text.skip(1), pat, val)
    }
}

/// Appends a copy of the source bytes to the destination.
fn extend_bytes(dst: &mut Vec<u8>, src: &Vec<u8>)
    ensures
        final(dst)@ == old(dst)@ + src@,
{
    let mut j: usize = 0;
    proof {
        assert(old(dst)@ + src@.subrange(0, 0) =~= old(dst)@);
    }
    while j < src.len()
        invariant
            j <= src@.len(),
            dst@ == old(dst)@ + src@.subrange(0, j as int),
        decreases src@.len() - j,
    {
        dst.push(src[j]);
        proof {
            assert(old(dst)@ + src@.subrange(0, j as int + 1) =~= (old(dst)@ + src@.subrange(
                0,
                j as int,
            )).push(src@[j as int]));
        }
        j = j + 1;
    }
    proof {
        assert(src@.subrange(0, src@.len() as int) =~= src@);
    }
}

/// Whether the pattern matches the text at position `i`.
fn is_match(text: &Vec<u8>, pattern: &Vec<u8>, i: usize) -> (r: bool)
    requires
        i + pattern@.len() <= text@.len(),
    ensures
        r == match_at(text@, pattern@, i as int),
{
    let mut k: usize = 0;
    let plen = pattern.len();
    let n = text.len();
    while k < plen
        invariant
            k <= plen,
            plen == pattern@.len(),
            n == text@.len(),
            i + plen <= n,
            forall|m: int| 0 <= m < k ==> text@[i + m] == pattern@[m],
        decreases plen - k,
    {
        if text[i + k] != pattern[k] {
            proof {
                assert(text@.subrange(i as int, i as int + plen)[k as int] != pattern@[k as int]);
            }
            return false;
        }
        k = k + 1;
    }
    proof {
        assert(text@.subrange(i as int, i as int + plen) =~= pattern@);
    }
    true
}

/// The text with every occurrence of the token replaced by the value:
/// the report templates are filled in with this replacement.
pub fn replace_all(text: &Vec<u8>, pattern: &Vec<u8>, value: &Vec<u8>) -> (r: Vec<u8>)
    requires
        pattern@.len() >= 1,
    ensures
        r@ == replace_spec(text@, pattern@, value@),
{
    let n = text.len();
    let plen = pattern.len();
    let mut out: Vec<u8> = Vec::new();
    let mut i: usize = 0;
    proof {
        assert(text@.skip(0) =~= text@);
        assert(out@ + replace_spec(text@.skip(0), pattern@, value@) =~= replace_spec(
            text@,
            pattern@,
            value@,
        ));
    }
    while n >= plen && i <= n - plen
        invariant
            i <= n,
            n == text@.len(),
            plen == pattern@.len(),
            plen >= 1,
            replace_spec(text@, pattern@, value@) == out@ + replace_spec(
                text@.skip(i as int),
                pattern@,
                value@,
            ),
        decreases n - i,
    {
        let ghost rest = text@.skip(i as int);
        proof {
            assert(rest.subrange(0, plen as int) =~= text@.subrange(i as int, i as int + plen));
        }
        if is_match(text, pattern, i) {
            proof {
                assert(rest.skip(plen as int) =~= text@.skip(i as int + plen));
                assert(out@ + (value@ + replace_spec(
                    text@.skip(i as int + plen),
                    pattern@,
                    value@,
                )) =~= (out@ + value@) + replace_spec(text@.skip(i as int + plen), pattern@, value@));
            }
            extend_bytes(&mut out, value);
            i = i + plen;
        } else {
            proof {
                assert(rest.subrange(0, 1) =~= seq![text@[i as int]]);
                assert(rest.skip(1) =~= text@.skip(i as int + 1));
                assert(out@ + (seq![text@[i as int]] + replace_spec(
                    text@.skip(i as int + 1),
                    pattern@,
                    value@,
                )) =~= out@.push(text@[i as int]) + replace_spec(
                    text@.skip(i as int + 1),
                    pattern@,
                    value@,
                ));
            }
            out.push(text[i]);
            i = i + 1;
        }
    }
    // what is left is shorter than the pattern and is copied unchanged
    let ghost tail_start = i as int;
    proof {
        assert(replace_spec(text@.skip(tail_start), pattern@, value@) == text@.skip(tail_start));
    }
    while i < n
        invariant
            tail_start <= i <= n,
            n == text@.len(),
            replace_spec(text@, pattern@, value@) == out@ + text@.skip(i as int),
        decreases n - i,
    {
        proof {
            assert(text@.skip(i as int) =~= seq![text@[i as int]] + text@.skip(i as int + 1));
            assert(out@ + (seq![text@[i as int]] + text@.skip(i as int + 1)) =~= out@.push(
                text@[i as int],
            ) + text@.skip(i as int + 1));
        }
        out.push(text[i]);
        i = i + 1;
    }
    proof {
        assert(text@.skip(n as int) =~= Seq::<u8>::empty());
        assert(out@ + Seq::<u8>::empty() =~= out@);
    }
    out
}

} // verus!
