use std::ops::Range;
use std::rc::Rc;
use vstd::prelude::*;
use vstd::utf8::*;

verus! {

broadcast use {encode_utf8_valid_utf8, encode_utf8_decode_utf8};

/// `start..end` cuts the UTF-8 bytes of `s` at character boundaries.
pub open spec fn substring_ok(s: Seq<char>, start: int, end: int) -> bool {
    &&& 0 <= start <= end <= encode_utf8(s).len()
    &&& is_char_boundary(encode_utf8(s), start)
    &&& is_char_boundary(encode_utf8(s), end)
}

/// The characters between the byte positions `start` and `end` of `s`.
pub open spec fn substring(s: Seq<char>, start: int, end: int) -> Seq<char> {
    decode_utf8(encode_utf8(s).subrange(start, end))
}

/// Part of a shared string: the string and a byte range of it, which outlives the
/// handle that produced it.
#[derive(Debug)]
pub struct RcSubstring {
    rcstring: Rc<String>,
    range: Range<usize>,
}

/// A boundary of `b` before its end is still one of `b[..end]`, where `end` is a
/// boundary too.
proof fn lemma_prefix_boundary(b: Seq<u8>, start: int, end: int)
    requires
        valid_utf8(b),
        0 <= start <= end <= b.len(),
        is_char_boundary(b, start),
        is_char_boundary(b, end),
    ensures
        valid_utf8(b.subrange(0, end)),
        is_char_boundary(b.subrange(0, end), start),
{
    valid_utf8_split(b, end);
    let p = b.subrange(0, end);
    if start == end {
        is_char_boundary_start_end_of_seq(p);
        assert(p.len() == end);
    } else {
        is_char_boundary_iff_not_is_continuation_byte(b, start);
        is_char_boundary_iff_not_is_continuation_byte(p, start);
    }
}

impl RcSubstring {
    #[verifier::type_invariant]
    closed spec fn inv(&self) -> bool {
        substring_ok(self.rcstring@, self.range.start as int, self.range.end as int)
    }

    /// The characters that this substring holds.
    pub closed spec fn view(&self) -> Seq<char> {
        substring(self.rcstring@, self.range.start as int, self.range.end as int)
    }

    /// The whole string that this substring is part of.
    pub closed spec fn spec_string(&self) -> Seq<char> {
        self.rcstring@
    }

    /// The byte range of this substring.
    pub closed spec fn spec_range(&self) -> (int, int) {
        (self.range.start as int, self.range.end as int)
    }

    /// The part `range` of `rcstring`; the range must fall on character boundaries.
    pub fn new(rcstring: Rc<String>, range: Range<usize>) -> (r: Self)
        requires
            substring_ok(rcstring@, range.start as int, range.end as int),
        ensures
            r.view() == substring(rcstring@, range.start as int, range.end as int),
            r.spec_string() == rcstring@,
            r.spec_range() == (range.start as int, range.end as int),
    {
        RcSubstring { rcstring, range }
    }

    /// The substring as a string slice.
    pub fn as_str(&self) -> (r: &str)
        ensures
            r@ == self.view(),
    {
        proof {
            use_type_invariant(self);
            lemma_prefix_boundary(
                encode_utf8(self.rcstring@),
                self.range.start as int,
                self.range.end as int,
            );
        }
        let s = self.rcstring.as_str();
        let (prefix, _) = s.split_at(self.range.end);
        let (_, part) = prefix.split_at(self.range.start);
        proof {
            let b = encode_utf8(self.rcstring@);
            assert(b.subrange(0, self.range.end as int).subrange(
                self.range.start as int,
                self.range.end as int,
            ) =~= b.subrange(self.range.start as int, self.range.end as int));
            assert(decode_utf8(encode_utf8(part@)) == part@);
        }
        part
    }

    /// A copy of the substring.
    pub fn to_string(&self) -> (r: String)
        ensures
            r@ == self.view(),
    {
        self.as_str().to_owned()
    }
}

impl std::ops::Deref for RcSubstring {
    type Target = str;

    fn deref(&self) -> &str {
        self.as_str()
    }
}

} // verus!
