use vstd::prelude::*;
use vstd::utf8::*;

verus! {

/// `b` without its trailing zero bytes.
pub open spec fn trim_nul(b: Seq<u8>) -> Seq<u8>
    decreases b.len(),
{
    if b.len() > 0 && b.last() == 0 {
        trim_nul(b.drop_last())
    } else {
        b
    }
}

/// `n` zero bytes.
pub open spec fn zeros(n: nat) -> Seq<u8> {
    Seq::new(n, |i: int| 0u8)
}

/// Zero bytes appended to `s` are trimmed away again.
pub proof fn lemma_trim_nul_zeros(s: Seq<u8>, n: nat)
    ensures
        trim_nul(s + zeros(n)) == trim_nul(s),
    decreases n,
{
    if n > 0 {
        let t = s + zeros(n);
        assert(t.last() == 0u8);
        assert(t.drop_last() =~= s + zeros((n - 1) as nat));
        lemma_trim_nul_zeros(s, (n - 1) as nat);
    } else {
        assert(s + zeros(0) =~= s);
    }
}

/// `b` is its trimmed part followed by the zero bytes that were trimmed.
pub proof fn lemma_trim_nul_split(b: Seq<u8>)
    ensures
        trim_nul(b).len() <= b.len(),
        b == trim_nul(b) + zeros((b.len() - trim_nul(b).len()) as nat),
    decreases b.len(),
{
    if b.len() > 0 && b.last() == 0 {
        lemma_trim_nul_split(b.drop_last());
        let t = trim_nul(b);
        let n = (b.drop_last().len() - t.len()) as nat;
        assert(b =~= (t + zeros(n)).push(0u8));
        assert((t + zeros(n)).push(0u8) =~= t + zeros(n + 1));
    } else {
        assert(b =~= b + zeros(0));
    }
}

/// The characters that `b` encodes, or none where it is not UTF-8.
pub open spec fn utf8_chars(b: Seq<u8>) -> Option<Seq<char>> {
    if valid_utf8(b) {
        Some(decode_utf8(b))
    } else {
        None
    }
}

/// Relies on `String::from_utf8`: it succeeds exactly on valid UTF-8, and the
/// string holds the characters that the bytes encode.
#[verifier::external_body]
pub(crate) fn utf8_string(bytes: Vec<u8>) -> (r: Option<String>)
    ensures
        r is Some <==> valid_utf8(bytes@),
        r matches Some(s) ==> s@ == decode_utf8(bytes@),
{
    String::from_utf8(bytes).ok()
}

/// The length of `b` once its trailing zero bytes are dropped.
pub fn trimmed_len(b: &[u8]) -> (r: usize)
    ensures
        r <= b@.len(),
        trim_nul(b@) == b@.subrange(0, r as int),
{
    let mut e: usize = b.len();
    assert(b@.subrange(0, e as int) =~= b@);
    while e > 0 && b[e - 1] == 0
        invariant
            e <= b@.len(),
            trim_nul(b@) == trim_nul(b@.subrange(0, e as int)),
        decreases e,
    {
        assert(b@.subrange(0, e as int).drop_last() =~= b@.subrange(0, e - 1));
        e = e - 1;
    }
    e
}

/// The UTF-8 bytes of `s`.
pub fn string_bytes(s: &String) -> (r: Vec<u8>)
    ensures
        r@ == encode_utf8(s@),
{
    vstd::slice::slice_to_vec(s.as_str().as_bytes())
}

/// The position of the first newline byte at or after `from`; the length of `b`
/// where there is none.
pub open spec fn next_newline(b: Seq<u8>, from: int) -> int
    decreases b.len() - from,
{
    if from < 0 || from >= b.len() {
        b.len() as int
    } else if b[from] == 10 {
        from
    } else {
        next_newline(b, from + 1)
    }
}

/// The `i`-th line of `b` counted from position `from`: lines end at a newline
/// byte, which they do not hold; nothing after a final newline is a line.
pub open spec fn nth_line_from(b: Seq<u8>, from: int, i: int) -> Option<Seq<u8>>
    decreases b.len() - from,
{
    if from < 0 || from >= b.len() || i < 0 {
        None
    } else {
        let p = next_newline(b, from);
        if i == 0 {
            Some(b.subrange(from, p))
        } else if p >= b.len() || p < from {
            None
        } else {
            nth_line_from(b, p + 1, i - 1)
        }
    }
}

/// The `i`-th line of `b`, counted from 0.
pub open spec fn nth_line(b: Seq<u8>, i: int) -> Option<Seq<u8>> {
    nth_line_from(b, 0, i)
}

/// The first newline at or after `from`.
pub fn find_newline(b: &[u8], from: usize) -> (r: usize)
    requires
        from <= b@.len(),
    ensures
        from <= r <= b@.len(),
        r == next_newline(b@, from as int),
        r < b@.len() ==> b@[r as int] == 10,
{
    let len = b.len();
    let mut i = from;
    while i < len && b[i] != 10
        invariant
            from <= i <= len,
            len == b@.len(),
            next_newline(b@, from as int) == next_newline(b@, i as int),
        decreases len - i,
    {
        i = i + 1;
    }
    i
}

/// Where the `index`-th line of `b` starts and ends.
pub fn find_line(b: &[u8], index: u32) -> (r: Option<(usize, usize)>)
    ensures
        match r {
            Some((s, e)) => s <= e <= b@.len() && nth_line(b@, index as int) == Some(
                b@.subrange(s as int, e as int),
            ),
            None => nth_line(b@, index as int) is None,
        },
{
    let len = b.len();
    let mut pos: usize = 0;
    let mut k: u32 = 0;
    loop
        invariant
            pos <= len,
            len == b@.len(),
            k <= index,
            nth_line(b@, index as int) == nth_line_from(b@, pos as int, (index - k) as int),
        decreases len - pos,
    {
        if pos >= len {
            return None;
        }
        let p = find_newline(b, pos);
        if k == index {
            return Some((pos, p));
        }
        if p >= len {
            return None;
        }
        pos = p + 1;
        k = k + 1;
    }
}

/// The byte after a one-byte character at a boundary is a boundary too.
pub proof fn lemma_boundary_after_ascii(b: Seq<u8>, i: int)
    requires
        valid_utf8(b),
        0 <= i < b.len(),
        is_char_boundary(b, i),
        b[i] < 128,
    ensures
        is_char_boundary(b, i + 1),
    decreases b.len(),
{
    reveal_with_fuel(is_char_boundary, 2);
    let l = length_of_first_scalar(b);
    if i == 0 {
        assert(is_leading_byte_width_1(b[0]));
        assert(l == 1);
        assert(is_char_boundary(pop_first_scalar(b), 0));
    } else {
        assert(valid_first_scalar(b));
        assert(l >= 1);
        let rest = pop_first_scalar(b);
        assert(is_char_boundary(rest, i - l));
        if i - l == 0 {
            is_char_boundary_len_first(b);
        }
        assert(i - l >= 0) by {
            is_char_boundary_len_first(b);
        }
        assert(rest[i - l] == b[i]);
        lemma_boundary_after_ascii(rest, i - l);
    }
}

/// A boundary past the start lies past the first character.
proof fn is_char_boundary_len_first(b: Seq<u8>)
    requires
        valid_utf8(b),
        b.len() > 0,
    ensures
        1 <= length_of_first_scalar(b) <= b.len(),
        forall|i: int| 0 < i < length_of_first_scalar(b) ==> !#[trigger] is_char_boundary(b, i),
{
    reveal_with_fuel(is_char_boundary, 2);
    assert forall|i: int| 0 < i < length_of_first_scalar(b) implies !#[trigger] is_char_boundary(b, i) by {
        is_char_boundary_iff_not_is_continuation_byte(b, i);
    }
}

/// A line cut out of valid UTF-8 at newlines is valid UTF-8.
pub proof fn lemma_line_valid(b: Seq<u8>, from: int, i: int)
    requires
        valid_utf8(b),
        0 <= from <= b.len(),
        is_char_boundary(b, from),
    ensures
        nth_line_from(b, from, i) matches Some(l) ==> valid_utf8(l),
    decreases b.len() - from,
{
    if 0 <= from < b.len() && i >= 0 {
        let p = next_newline(b, from);
        lemma_next_newline(b, from);
        valid_utf8_split(b, from);
        let rest = b.subrange(from, b.len() as int);
        if p < b.len() {
            is_char_boundary_iff_not_is_continuation_byte(rest, p - from);
            is_char_boundary_iff_not_is_continuation_byte(b, p);
            assert(rest[p - from] == b[p]);
        } else {
            is_char_boundary_start_end_of_seq(rest);
        }
        valid_utf8_split(rest, p - from);
        assert(rest.subrange(0, p - from) =~= b.subrange(from, p));
        if i > 0 && p < b.len() {
            lemma_boundary_after_ascii(b, p);
            lemma_line_valid(b, p + 1, i - 1);
        }
    }
}

/// The newline search stops at a newline or at the end, never before `from`.
pub proof fn lemma_next_newline(b: Seq<u8>, from: int)
    requires
        0 <= from <= b.len(),
    ensures
        from <= next_newline(b, from) <= b.len(),
        next_newline(b, from) < b.len() ==> b[next_newline(b, from)] == 10,
    decreases b.len() - from,
{
    if from < b.len() && b[from] != 10 {
        lemma_next_newline(b, from + 1);
    }
}

} // verus!
