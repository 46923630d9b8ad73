//! Item records: the resource name of an item's record file and the framing of
//! the records inside it (each a length byte followed by that many bytes).
//! Reading the resource itself is the host's work.

use vstd::prelude::*;
use crate::text::string_of;

verus! {

broadcast use vstd::string::group_string_axioms;

/// The decimal digits of `v >= 0`, most significant first.
pub open spec fn decimal_digits(v: nat) -> Seq<char>
    decreases v,
{
    if v < 10 {
        seq![digit_char(v)]
    } else {
        decimal_digits(v / 10).push(digit_char(v % 10))
    }
}

/// The character of digit `d`.
pub open spec fn digit_char(d: nat) -> char {
    if d == 0 { '0' } else if d == 1 { '1' } else if d == 2 { '2' } else if d == 3 { '3' } else if d == 4 {
        '4'
    } else if d == 5 { '5' } else if d == 6 { '6' } else if d == 7 { '7' } else if d == 8 { '8' } else {
        '9'
    }
}

/// `String.value_of(v)`: the decimal text of `v`, with a minus sign when negative.
pub open spec fn decimal_text(v: int) -> Seq<char> {
    if v < 0 {
        seq!['-'] + decimal_digits((-v) as nat)
    } else {
        decimal_digits(v as nat)
    }
}

/// The resource holding the records of item `item_id`: `/itm/` and the id in
/// decimal, zero-padded below 10.
pub open spec fn item_path(item_id: i8) -> Seq<char> {
    let id = decimal_text(item_id as int);
    seq!['/', 'i', 't', 'm', '/'] + if item_id < 10 { seq!['0'] + id } else { id }
}

fn digit_to_char(d: u8) -> (c: char)
    requires
        d < 10,
    ensures
        c == digit_char(d as nat),
{
    if d == 0 { '0' } else if d == 1 { '1' } else if d == 2 { '2' } else if d == 3 { '3' } else if d == 4 {
        '4'
    } else if d == 5 { '5' } else if d == 6 { '6' } else if d == 7 { '7' } else if d == 8 { '8' } else {
        '9'
    }
}

/// The decimal digits of `v`.
fn digits_of(v: u8) -> (r: Vec<char>)
    ensures
        r@ == decimal_digits(v as nat),
{
    if v < 10 {
        let mut r = Vec::new();
        r.push(digit_to_char(v));
        r
    } else if v < 100 {
        let mut r = Vec::new();
        r.push(digit_to_char(v / 10));
        r.push(digit_to_char(v % 10));
        proof {
            assert(decimal_digits((v / 10) as nat) == seq![digit_char((v / 10) as nat)]);
        }
        assert(r@ =~= decimal_digits(v as nat));
        r
    } else {
        let mut r = Vec::new();
        r.push(digit_to_char(v / 100));
        r.push(digit_to_char((v / 10) % 10));
        r.push(digit_to_char(v % 10));
        proof {
            let t = (v / 10) as nat;
            assert(t / 10 == v / 100);
            assert(decimal_digits(t / 10) == seq![digit_char(t / 10)]);
            assert(decimal_digits(t) == seq![digit_char(t / 10), digit_char(t % 10)]);
        }
        assert(r@ =~= decimal_digits(v as nat));
        r
    }
}

/// `"/itm/" + id_text` of `load_item_record(item_id, record)`: the name of the
/// resource that holds item `item_id`'s records.
pub fn item_resource_path(item_id: i8) -> (r: String)
    ensures
        r@ == item_path(item_id),
{
    let mut chars: Vec<char> = Vec::new();
    chars.push('/');
    chars.push('i');
    chars.push('t');
    chars.push('m');
    chars.push('/');
    if item_id < 10 {
        chars.push('0');
    }
    let ghost prefix = chars@;
    let magnitude: u8 = if item_id < 0 {
        chars.push('-');
        (0i16 - item_id as i16) as u8
    } else {
        item_id as u8
    };
    let ghost with_sign = chars@;
    let digits = digits_of(magnitude);
    let mut i: usize = 0;
    while i < digits.len()
        invariant
            i <= digits@.len(),
            chars@ == with_sign + digits@.take(i as int),
        decreases digits@.len() - i,
    {
        chars.push(digits[i]);
        i = i + 1;
        assert(chars@ =~= with_sign + digits@.take(i as int));
    }
    assert(digits@.take(digits@.len() as int) =~= digits@);
    proof {
        if item_id < 10 {
            assert(prefix =~= seq!['/', 'i', 't', 'm', '/', '0']);
        } else {
            assert(prefix =~= seq!['/', 'i', 't', 'm', '/']);
        }
        if item_id < 0 {
            assert(with_sign =~= prefix.push('-'));
        }
    }
    assert(chars@ =~= item_path(item_id));
    string_of(&chars)
}

/// A length byte read as unsigned.
pub open spec fn frame_len(data: Seq<i8>, pos: int) -> int {
    (data[pos] as int + 256) % 256
}

/// Where frame `k` starts: frames follow each other, each a length byte and
/// that many bytes.
pub open spec fn frame_start(data: Seq<i8>, k: int) -> int
    decreases k,
{
    if k <= 0 {
        0
    } else {
        frame_start(data, k - 1) + 1 + frame_len(data, frame_start(data, k - 1))
    }
}

/// The length bytes of frames `0..=k` lie inside `data`.
pub open spec fn frames_readable(data: Seq<i8>, k: int) -> bool
    decreases k,
{
    &&& (k <= 0 || frames_readable(data, k - 1))
    &&& frame_start(data, k) < data.len()
}

proof fn lemma_frames_readable(data: Seq<i8>, k: int, j: int)
    requires
        frames_readable(data, k),
        0 <= j <= k,
    ensures
        frames_readable(data, j),
        0 <= frame_start(data, j) < data.len(),
    decreases k,
{
    if j < k {
        lemma_frames_readable(data, k - 1, j);
    } else {
        lemma_frame_start_nonneg(data, j);
    }
}

proof fn lemma_frame_start_nonneg(data: Seq<i8>, k: int)
    ensures
        frame_start(data, k) >= 0,
    decreases k,
{
    if k > 0 {
        lemma_frame_start_nonneg(data, k - 1);
    }
}

/// `load_item_record(item_id, record)` given the item's resource bytes (`None`
/// when there is no such resource): record `record` of the resource, after
/// skipping the frames before it; `None` for a missing resource.
pub fn load_item_record(resource: Option<Vec<i8>>, record: i8) -> (r: Option<Vec<i8>>)
    requires
        resource matches Some(src) ==> {
            let k = if record < 0 { 0int } else { record as int };
            &&& frames_readable(src@, k)
            &&& frame_start(src@, k) + 1 + frame_len(src@, frame_start(src@, k)) <= src@.len()
        },
    ensures
        resource is None ==> r is None,
        resource matches Some(src) ==> {
            let k = if record < 0 { 0int } else { record as int };
            let st = frame_start(src@, k);
            r matches Some(out) && out@ == src@.subrange(st + 1, st + 1 + frame_len(src@, st))
        },
{
    let src = match resource {
        None => {
            return None;
        },
        Some(s) => s,
    };
    let ghost k = if record < 0 { 0int } else { record as int };
    let n = src.len();
    let mut pos: usize = 0;
    let mut i: i32 = 0;
    while i < record as i32
        invariant
            n == src@.len(),
            0 <= i,
            i <= k,
            k == (if record < 0 { 0int } else { record as int }),
            frames_readable(src@, k),
            pos == frame_start(src@, i as int),
        decreases record - i,
    {
        proof {
            lemma_frames_readable(src@, k, i as int);
            lemma_frames_readable(src@, k, (i + 1) as int);
        }
        let b = src[pos];
        let len: usize = if b < 0 { (b as i16 + 256) as usize } else { b as usize };
        assert(pos + 1 + len == frame_start(src@, (i + 1) as int));
        pos = pos + 1 + len;
        i = i + 1;
    }
    proof {
        lemma_frames_readable(src@, k, k);
    }
    let b = src[pos];
    let rec_len: usize = if b < 0 { (b as i16 + 256) as usize } else { b as usize };
    let start = pos + 1;
    let mut out: Vec<i8> = Vec::new();
    let mut j: usize = 0;
    while j < rec_len
        invariant
            n == src@.len(),
            j <= rec_len,
            start + rec_len <= src@.len(),
            out@ == src@.subrange(start as int, start + j),
        decreases rec_len - j,
    {
        out.push(src[start + j]);
        j = j + 1;
        assert(out@ =~= src@.subrange(start as int, start + j));
    }
    Some(out)
}

} // verus!
