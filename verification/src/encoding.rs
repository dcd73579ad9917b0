//! UTF-8 byte offsets into texts held as chars.
use vstd::prelude::*;
use vstd::utf8::{encode_utf8, encode_scalar};

verus! {

/// The number of UTF-8 bytes of the first `k` chars of `s`.
pub open spec fn prefix_bytes(s: Seq<char>, k: int) -> nat {
    encode_utf8(s.take(k)).len()
}

/// The char index at which byte offset `b` of `s` starts a char, if any.
pub open spec fn char_at_byte(s: Seq<char>, b: int) -> Option<int> {
    if exists|k: int| 0 <= k <= s.len() && prefix_bytes(s, k) == b {
        Some(choose|k: int| 0 <= k <= s.len() && prefix_bytes(s, k) == b)
    } else {
        None
    }
}

pub proof fn lemma_encode_concat(a: Seq<char>, b: Seq<char>)
    ensures
        encode_utf8(a + b) == encode_utf8(a) + encode_utf8(b),
    decreases a.len(),
{
    if a.len() == 0 {
        assert(a + b =~= b);
        assert(encode_utf8(a) =~= Seq::<u8>::empty());
        assert(encode_utf8(a) + encode_utf8(b) =~= encode_utf8(b));
    } else {
        assert((a + b).drop_first() =~= a.drop_first() + b);
        lemma_encode_concat(a.drop_first(), b);
        assert(encode_utf8(a + b) =~= encode_scalar(a[0] as u32) + encode_utf8(a.drop_first() + b));
        assert(encode_utf8(a) + encode_utf8(b) =~= encode_scalar(a[0] as u32) + (encode_utf8(
            a.drop_first(),
        ) + encode_utf8(b)));
    }
}

/// Adding one char adds its width.
pub proof fn lemma_prefix_bytes_step(s: Seq<char>, k: int)
    requires
        0 <= k < s.len(),
    ensures
        prefix_bytes(s, k + 1) == prefix_bytes(s, k) + encode_scalar(s[k] as u32).len(),
{
    assert(s.take(k + 1) =~= s.take(k) + seq![s[k]]);
    lemma_encode_concat(s.take(k), seq![s[k]]);
    let one = seq![s[k]];
    assert(one.drop_first() =~= Seq::<char>::empty());
    assert(encode_utf8(one.drop_first()) =~= Seq::<u8>::empty());
    assert(encode_utf8(one) =~= encode_scalar(s[k] as u32));
}

/// Byte prefixes grow strictly with the number of chars.
pub proof fn lemma_prefix_bytes_strict(s: Seq<char>, j: int, k: int)
    requires
        0 <= j < k <= s.len(),
    ensures
        prefix_bytes(s, j) < prefix_bytes(s, k),
    decreases k - j,
{
    lemma_prefix_bytes_step(s, k - 1);
    if j < k - 1 {
        lemma_prefix_bytes_strict(s, j, k - 1);
    }
}

/// The number of UTF-8 bytes of `c`.
pub fn utf8_width(c: char) -> (w: usize)
    ensures
        w == encode_scalar(c as u32).len(),
        1 <= w <= 4,
{
    let u = c as u32;
    if u <= 0x7F {
        1
    } else if u <= 0x7FF {
        2
    } else if u <= 0xFFFF {
        assert(!(0xD800 <= u <= 0xDFFF)) by {
            vstd::utf8::char_is_scalar(c);
        }
        3
    } else {
        assert(u <= 0x10FFFF) by {
            vstd::utf8::char_is_scalar(c);
        }
        4
    }
}

/// The char index at which byte offset `b` starts a char of `s`, if any.
pub fn byte_to_char(s: &[char], b: usize) -> (r: Option<usize>)
    ensures
        match char_at_byte(s@, b as int) {
            Some(k) => r is Some && r->0 == k,
            None => r is None,
        },
{
    let mut k: usize = 0;
    let mut acc: usize = 0;
    assert(s@.take(0) =~= Seq::<char>::empty());
    while k < s.len() && acc < b
        invariant
            k <= s.len(),
            acc == prefix_bytes(s@, k as int),
            acc <= b,
            forall|j: int| 0 <= j < k ==> prefix_bytes(s@, j) < b,
        decreases s.len() - k,
    {
        let w = utf8_width(s[k]);
        proof {
            lemma_prefix_bytes_step(s@, k as int);
        }
        if w > b - acc {
            proof {
                assert forall|j: int| 0 <= j <= s@.len() implies prefix_bytes(s@, j) != b by {
                    if j <= k {
                        if j < k {
                            lemma_prefix_bytes_strict(s@, j, k as int);
                        }
                    } else {
                        if j > k + 1 {
                            lemma_prefix_bytes_strict(s@, k + 1, j);
                        }
                    }
                }
            }
            return None;
        }
        acc = acc + w;
        k = k + 1;
    }
    if acc == b {
        proof {
            assert forall|j: int| 0 <= j <= s@.len() && prefix_bytes(s@, j) == b implies j
                == k by {
                if j < k {
                    lemma_prefix_bytes_strict(s@, j, k as int);
                } else if j > k {
                    lemma_prefix_bytes_strict(s@, k as int, j);
                }
            }
        }
        Some(k)
    } else {
        proof {
            assert forall|j: int| 0 <= j <= s@.len() implies prefix_bytes(s@, j) != b by {
                if j < k {
                    lemma_prefix_bytes_strict(s@, j, k as int);
                }
                if j > k {
                    lemma_prefix_bytes_strict(s@, k as int, j);
                }
            }
        }
        None
    }
}

} // verus!
