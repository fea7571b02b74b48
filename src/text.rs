//! Byte-length arithmetic on strings: widest label and right padding.
use vstd::prelude::*;
use vstd::string::StringExecFns;
use vstd::string::StringSliceAdditionalSpecFns;
use vstd::utf8::encode_utf8;

verus! {

/// The length of a character sequence in UTF-8 bytes, which is what `str::len` counts.
pub open spec fn byte_len(s: Seq<char>) -> nat {
    encode_utf8(s).len()
}

/// The largest byte length among the strings, or 0 when there are none.
pub open spec fn max_byte_len(strs: Seq<String>) -> nat
    decreases strs.len(),
{
    if strs.len() == 0 {
        0
    } else {
        let rest = max_byte_len(strs.drop_last());
        let last = byte_len(strs.last()@);
        if rest >= last {
            rest
        } else {
            last
        }
    }
}

/// `n` space characters.
pub open spec fn spaces(n: nat) -> Seq<char> {
    Seq::new(n, |i: int| ' ')
}

/// `s` followed by as many spaces as it takes to reach `width` bytes; `s` itself
/// when it is already that long.
pub open spec fn padded(s: Seq<char>, width: nat) -> Seq<char> {
    if byte_len(s) >= width {
        s
    } else {
        s + spaces((width - byte_len(s)) as nat)
    }
}

/// UTF-8 encoding distributes over concatenation.
pub proof fn lemma_encode_concat(a: Seq<char>, b: Seq<char>)
    ensures
        encode_utf8(a + b) == encode_utf8(a) + encode_utf8(b),
    decreases a.len(),
{
    if a.len() == 0 {
        assert(a + b =~= b);
        assert(encode_utf8(a) + encode_utf8(b) =~= encode_utf8(b));
    } else {
        assert((a + b).drop_first() =~= a.drop_first() + b);
        lemma_encode_concat(a.drop_first(), b);
        assert((a + b)[0] == a[0]);
        let head = vstd::utf8::encode_scalar(a[0] as u32);
        assert(head + (encode_utf8(a.drop_first()) + encode_utf8(b)) =~= (head + encode_utf8(
            a.drop_first(),
        )) + encode_utf8(b));
    }
}

/// A space takes one byte.
pub proof fn lemma_byte_len_push_space(s: Seq<char>)
    ensures
        byte_len(s.push(' ')) == byte_len(s) + 1,
{
    lemma_encode_concat(s, seq![' ']);
    assert(s + seq![' '] =~= s.push(' '));
    assert(seq![' '].drop_first() =~= Seq::<char>::empty());
    assert((' ' as u32) == 32u32);
    assert(vstd::utf8::encode_scalar(' ' as u32).len() == 1);
    assert(encode_utf8(seq![' ']) == vstd::utf8::encode_scalar(' ' as u32) + encode_utf8(
        seq![' '].drop_first(),
    ));
    assert(encode_utf8(Seq::<char>::empty()).len() == 0);
}

/// Every string in `strs` has a byte length that a `usize` can hold.
pub open spec fn lengths_fit(strs: Seq<String>) -> bool {
    forall|i: int| 0 <= i < strs.len() ==> byte_len(#[trigger] strs[i]@) <= usize::MAX
}

/// The byte length of a padded string is the larger of the original length and the width.
pub proof fn lemma_padded_byte_len(s: Seq<char>, width: nat)
    ensures
        byte_len(padded(s, width)) == if byte_len(s) >= width {
            byte_len(s)
        } else {
            width
        },
    decreases width,
{
    if byte_len(s) < width {
        let w1 = (width - 1) as nat;
        lemma_padded_byte_len(s, w1);
        if byte_len(s) < w1 {
            assert(padded(s, width) =~= padded(s, w1).push(' '));
            lemma_byte_len_push_space(padded(s, w1));
        } else {
            assert(padded(s, width) =~= s.push(' '));
            lemma_byte_len_push_space(s);
        }
    }
}

/// No string of `strs` is longer than the longest.
pub proof fn lemma_max_byte_len_bound(strs: Seq<String>, i: int)
    requires
        0 <= i < strs.len(),
    ensures
        byte_len(strs[i]@) <= max_byte_len(strs),
    decreases strs.len(),
{
    if i < strs.len() - 1 {
        lemma_max_byte_len_bound(strs.drop_last(), i);
    }
}

/// The byte length of `s`.
pub fn byte_length(s: &String) -> (r: usize)
    requires
        byte_len(s@) <= usize::MAX,
    ensures
        r == byte_len(s@),
{
    let st = s.as_str();
    assert(st.spec_bytes() == encode_utf8(st@));
    st.len()
}

/// The largest byte length among `strs`.
pub fn max_len(strs: &Vec<String>) -> (r: usize)
    requires
        lengths_fit(strs@),
    ensures
        r == max_byte_len(strs@),
{
    let mut r: usize = 0;
    let mut i: usize = 0;
    while i < strs.len()
        invariant
            i <= strs@.len(),
            r == max_byte_len(strs@.subrange(0, i as int)),
            lengths_fit(strs@),
        decreases strs@.len() - i,
    {
        assert(byte_len(strs@[i as int]@) <= usize::MAX);
        let n = byte_length(&strs[i]);
        assert(strs@.subrange(0, i + 1).drop_last() =~= strs@.subrange(0, i as int));
        if n > r {
            r = n;
        }
        i += 1;
    }
    assert(strs@.subrange(0, strs@.len() as int) =~= strs@);
    r
}

/// Right-pads `s` with spaces to `desired_len` bytes.
pub fn pad_to_size(s: &String, desired_len: usize) -> (r: String)
    requires
        byte_len(s@) <= usize::MAX,
    ensures
        r@ == padded(s@, desired_len as nat),
        byte_len(r@) == if byte_len(s@) >= desired_len {
            byte_len(s@)
        } else {
            desired_len as nat
        },
{
    let mut s2 = s.clone();
    let mut n: usize = byte_length(&s2);
    while n < desired_len
        invariant
            n == byte_len(s2@),
            n <= desired_len || s2@ == s@,
            s2@ == padded(s@, n as nat),
        decreases desired_len - n,
    {
        let ghost before = s2@;
        proof {
            reveal_strlit(" ");
            lemma_byte_len_push_space(s2@);
        }
        s2.append(" ");
        assert(s2@ =~= before.push(' '));
        assert(s2@ =~= padded(s@, (n + 1) as nat));
        n += 1;
    }
    proof {
        lemma_padded_byte_len(s@, desired_len as nat);
    }
    s2
}

} // verus!
