use vstd::prelude::*;

verus! {

// The TradingView websocket carries text packets in which each payload is
// preceded by a delimiter `~m~<length>~m~`; a heartbeat payload reads
// `~h~<id>`. Everything here works on the UTF-8 bytes of a packet; the
// digits of a delimiter or a heartbeat are decimal digits in Unicode's sense
// (general category Nd), each one character of one to four bytes.

/// `b` is one of the ASCII digits `0` to `9`.
pub open spec fn is_ascii_digit(b: u8) -> bool {
    48 <= b && b <= 57
}

/// `c` is a decimal digit of Unicode 16.0 (general category Nd, 71 ranges of
/// code points), the digits that `\d` stands for in a Unicode pattern.
pub open spec fn is_decimal_digit(c: int) -> bool {
    ||| 0x30 <= c <= 0x39
    ||| 0x660 <= c <= 0x669
    ||| 0x6f0 <= c <= 0x6f9
    ||| 0x7c0 <= c <= 0x7c9
    ||| 0x966 <= c <= 0x96f
    ||| 0x9e6 <= c <= 0x9ef
    ||| 0xa66 <= c <= 0xa6f
    ||| 0xae6 <= c <= 0xaef
    ||| 0xb66 <= c <= 0xb6f
    ||| 0xbe6 <= c <= 0xbef
    ||| 0xc66 <= c <= 0xc6f
    ||| 0xce6 <= c <= 0xcef
    ||| 0xd66 <= c <= 0xd6f
    ||| 0xde6 <= c <= 0xdef
    ||| 0xe50 <= c <= 0xe59
    ||| 0xed0 <= c <= 0xed9
    ||| 0xf20 <= c <= 0xf29
    ||| 0x1040 <= c <= 0x1049
    ||| 0x1090 <= c <= 0x1099
    ||| 0x17e0 <= c <= 0x17e9
    ||| 0x1810 <= c <= 0x1819
    ||| 0x1946 <= c <= 0x194f
    ||| 0x19d0 <= c <= 0x19d9
    ||| 0x1a80 <= c <= 0x1a89
    ||| 0x1a90 <= c <= 0x1a99
    ||| 0x1b50 <= c <= 0x1b59
    ||| 0x1bb0 <= c <= 0x1bb9
    ||| 0x1c40 <= c <= 0x1c49
    ||| 0x1c50 <= c <= 0x1c59
    ||| 0xa620 <= c <= 0xa629
    ||| 0xa8d0 <= c <= 0xa8d9
    ||| 0xa900 <= c <= 0xa909
    ||| 0xa9d0 <= c <= 0xa9d9
    ||| 0xa9f0 <= c <= 0xa9f9
    ||| 0xaa50 <= c <= 0xaa59
    ||| 0xabf0 <= c <= 0xabf9
    ||| 0xff10 <= c <= 0xff19
    ||| 0x104a0 <= c <= 0x104a9
    ||| 0x10d30 <= c <= 0x10d39
    ||| 0x10d40 <= c <= 0x10d49
    ||| 0x11066 <= c <= 0x1106f
    ||| 0x110f0 <= c <= 0x110f9
    ||| 0x11136 <= c <= 0x1113f
    ||| 0x111d0 <= c <= 0x111d9
    ||| 0x112f0 <= c <= 0x112f9
    ||| 0x11450 <= c <= 0x11459
    ||| 0x114d0 <= c <= 0x114d9
    ||| 0x11650 <= c <= 0x11659
    ||| 0x116c0 <= c <= 0x116c9
    ||| 0x116d0 <= c <= 0x116e3
    ||| 0x11730 <= c <= 0x11739
    ||| 0x118e0 <= c <= 0x118e9
    ||| 0x11950 <= c <= 0x11959
    ||| 0x11bf0 <= c <= 0x11bf9
    ||| 0x11c50 <= c <= 0x11c59
    ||| 0x11d50 <= c <= 0x11d59
    ||| 0x11da0 <= c <= 0x11da9
    ||| 0x11f50 <= c <= 0x11f59
    ||| 0x16130 <= c <= 0x16139
    ||| 0x16a60 <= c <= 0x16a69
    ||| 0x16ac0 <= c <= 0x16ac9
    ||| 0x16b50 <= c <= 0x16b59
    ||| 0x16d70 <= c <= 0x16d79
    ||| 0x1ccf0 <= c <= 0x1ccf9
    ||| 0x1d7ce <= c <= 0x1d7ff
    ||| 0x1e140 <= c <= 0x1e149
    ||| 0x1e2f0 <= c <= 0x1e2f9
    ||| 0x1e4f0 <= c <= 0x1e4f9
    ||| 0x1e5f1 <= c <= 0x1e5fa
    ||| 0x1e950 <= c <= 0x1e959
    ||| 0x1fbf0 <= c <= 0x1fbf9
}

/// `b` continues a multi-byte UTF-8 character.
pub open spec fn is_continuation(b: u8) -> bool {
    0x80 <= b && b <= 0xBF
}

/// The character whose well-formed UTF-8 encoding starts at `i`, as its code
/// point and its length in bytes; `None` where no well-formed encoding starts.
pub open spec fn utf8_char_at(s: Seq<u8>, i: int) -> Option<(int, int)> {
    if !(0 <= i < s.len()) {
        None
    } else {
        let b0 = s[i] as int;
        if b0 < 0x80 {
            Some((b0, 1))
        } else if 0xC2 <= b0 <= 0xDF && i + 1 < s.len() && is_continuation(s[i + 1]) {
            Some(((b0 - 0xC0) * 64 + (s[i + 1] - 0x80), 2))
        } else if 0xE0 <= b0 <= 0xEF && i + 2 < s.len() && is_continuation(s[i + 1]) && is_continuation(
            s[i + 2],
        ) {
            let c = ((b0 - 0xE0) * 64 + (s[i + 1] - 0x80)) * 64 + (s[i + 2] - 0x80);
            if 0x800 <= c && !(0xD800 <= c <= 0xDFFF) {
                Some((c, 3))
            } else {
                None
            }
        } else if 0xF0 <= b0 <= 0xF4 && i + 3 < s.len() && is_continuation(s[i + 1]) && is_continuation(
            s[i + 2],
        ) && is_continuation(s[i + 3]) {
            let c = (((b0 - 0xF0) * 64 + (s[i + 1] - 0x80)) * 64 + (s[i + 2] - 0x80)) * 64 + (s[i + 3] - 0x80);
            if 0x10000 <= c <= 0x10FFFF {
                Some((c, 4))
            } else {
                None
            }
        } else {
            None
        }
    }
}

/// The length in bytes of the decimal digit that starts at `i`, or 0 where
/// none does.
pub open spec fn digit_len_at(s: Seq<u8>, i: int) -> int {
    match utf8_char_at(s, i) {
        Some((c, len)) => if is_decimal_digit(c) {
            len
        } else {
            0
        },
        None => 0,
    }
}

/// The bytes of `~m~`.
pub open spec fn frame_marker() -> Seq<u8> {
    seq![126u8, 109u8, 126u8]
}

/// The bytes of `~h~`.
pub open spec fn heartbeat_marker() -> Seq<u8> {
    seq![126u8, 104u8, 126u8]
}

/// The decimal text of `n`, most significant digit first, without leading zeros.
pub open spec fn decimal(n: nat) -> Seq<u8>
    decreases n,
{
    if n < 10 {
        seq![(48 + n) as u8]
    } else {
        decimal(n / 10).push((48 + n % 10) as u8)
    }
}

/// The number that a run of ASCII digits spells in decimal.
pub open spec fn digits_value(digits: Seq<u8>) -> nat
    decreases digits.len(),
{
    if digits.len() == 0 {
        0
    } else {
        digits_value(digits.drop_last()) * 10 + (digits.last() - 48) as nat
    }
}

/// Every byte of `digits` is an ASCII digit.
pub open spec fn all_ascii_digits(digits: Seq<u8>) -> bool {
    forall|j: int| 0 <= j < digits.len() ==> is_ascii_digit(#[trigger] digits[j])
}

/// Where the run of decimal digits that starts at `i` ends.
pub open spec fn digit_run_end(s: Seq<u8>, i: int) -> int
    decreases s.len() - i,
{
    if 0 <= i && digit_len_at(s, i) > 0 {
        digit_run_end(s, i + digit_len_at(s, i))
    } else {
        i
    }
}

/// The three bytes at `i` are `marker`.
pub open spec fn marker_at(s: Seq<u8>, i: int, marker: Seq<u8>) -> bool {
    0 <= i && i + 3 <= s.len() && s.subrange(i, i + 3) == marker
}

/// A delimiter `~m~`, one or more digits, `~m~` starts at `i`.
pub open spec fn delimiter_at(s: Seq<u8>, i: int) -> bool {
    let k = digit_run_end(s, i + 3);
    marker_at(s, i, frame_marker()) && k > i + 3 && marker_at(s, k, frame_marker())
}

/// Where the delimiter that starts at `i` ends.
pub open spec fn delimiter_end(s: Seq<u8>, i: int) -> int {
    digit_run_end(s, i + 3) + 3
}

/// The first delimiter that starts at or after `from`.
pub open spec fn next_delimiter(s: Seq<u8>, from: int) -> Option<int>
    decreases s.len() - from,
{
    if from >= s.len() {
        None
    } else if delimiter_at(s, from) {
        Some(from)
    } else {
        next_delimiter(s, from + 1)
    }
}

/// The payloads of a packet from `from` on: the text between delimiters,
/// scanning left to right, leaving out the empty pieces.
pub open spec fn frame_payloads(s: Seq<u8>, from: int) -> Seq<Seq<u8>>
    decreases s.len() - from,
{
    match next_delimiter(s, from) {
        None => if from < s.len() {
            seq![s.subrange(from, s.len() as int)]
        } else {
            seq![]
        },
        Some(i) => {
            proof {
                lemma_next_delimiter(s, from);
            }
            (if from < i {
                seq![s.subrange(from, i)]
            } else {
                seq![]
            }) + frame_payloads(s, delimiter_end(s, i))
        },
    }
}

/// A heartbeat marker `~h~` followed by at least one digit starts at `i`.
pub open spec fn heartbeat_at(s: Seq<u8>, i: int) -> bool {
    marker_at(s, i, heartbeat_marker()) && digit_run_end(s, i + 3) > i + 3
}

/// The first heartbeat that starts at or after `from`.
pub open spec fn next_heartbeat(s: Seq<u8>, from: int) -> Option<int>
    decreases s.len() - from,
{
    if from >= s.len() {
        None
    } else if heartbeat_at(s, from) {
        Some(from)
    } else {
        next_heartbeat(s, from + 1)
    }
}

/// What a payload is.
#[derive(PartialEq, Eq, Structural, Debug, Clone, Copy)]
pub enum PayloadKind {
    /// A heartbeat with its id.
    Heartbeat(usize),
    /// A heartbeat whose id is no `usize`: it does not fit, or it holds a
    /// decimal digit other than `0` to `9`.
    HeartbeatUnreadable,
    /// Anything else: a JSON message.
    Data,
}

/// A payload is a heartbeat when it holds `~h~` followed by digits anywhere;
/// the first such occurrence gives the id, read as a `usize` in ASCII decimal.
pub open spec fn spec_payload_kind(s: Seq<u8>) -> PayloadKind {
    match next_heartbeat(s, 0) {
        None => PayloadKind::Data,
        Some(i) => {
            let run = s.subrange(i + 3, digit_run_end(s, i + 3));
            if all_ascii_digits(run) && digits_value(run) <= usize::MAX {
                PayloadKind::Heartbeat(digits_value(run) as usize)
            } else {
                PayloadKind::HeartbeatUnreadable
            }
        },
    }
}

/// A packet that carries `payload`: `~m~`, its length in bytes, `~m~`, the payload.
pub open spec fn framed(payload: Seq<u8>) -> Seq<u8> {
    frame_marker() + decimal(payload.len()) + frame_marker() + payload
}

/// The heartbeat payload for `id`: `~h~` and the id in decimal.
pub open spec fn heartbeat_text(id: nat) -> Seq<u8> {
    heartbeat_marker() + decimal(id)
}

/// The byte contents of each buffer.
pub open spec fn byte_views(buffers: Seq<Vec<u8>>) -> Seq<Seq<u8>> {
    Seq::new(buffers.len(), |k: int| buffers[k]@)
}

// ---------------------------------------------------------------------------
// Lemmas

pub proof fn lemma_next_delimiter(s: Seq<u8>, from: int)
    ensures
        match next_delimiter(s, from) {
            Some(i) => {
                &&& from <= i
                &&& delimiter_at(s, i)
                &&& delimiter_end(s, i) <= s.len()
                &&& i + 3 < delimiter_end(s, i)
            },
            None => forall|j: int| from <= j ==> !delimiter_at(s, j),
        },
    decreases s.len() - from,
{
    if from >= s.len() {
    } else if delimiter_at(s, from) {
    } else {
        lemma_next_delimiter(s, from + 1);
    }
}

proof fn lemma_digit_len(s: Seq<u8>, i: int)
    ensures
        0 <= digit_len_at(s, i) <= 4,
        digit_len_at(s, i) > 0 ==> 0 <= i && i + digit_len_at(s, i) <= s.len(),
        0 <= i < s.len() && is_ascii_digit(s[i]) ==> digit_len_at(s, i) == 1,
        0 <= i < s.len() && s[i] < 0x80 && !is_ascii_digit(s[i]) ==> digit_len_at(s, i) == 0,
{
}

proof fn lemma_digit_run(s: Seq<u8>, i: int)
    requires
        0 <= i <= s.len(),
    ensures
        i <= digit_run_end(s, i) <= s.len(),
        digit_len_at(s, digit_run_end(s, i)) == 0,
    decreases s.len() - i,
{
    lemma_digit_len(s, i);
    if digit_len_at(s, i) > 0 {
        lemma_digit_run(s, i + digit_len_at(s, i));
    }
}

proof fn lemma_digit_run_to_end(s: Seq<u8>, i: int)
    requires
        0 <= i <= s.len(),
        forall|j: int| i <= j < s.len() ==> is_ascii_digit(#[trigger] s[j]),
    ensures
        digit_run_end(s, i) == s.len(),
    decreases s.len() - i,
{
    lemma_digit_len(s, i);
    if i < s.len() {
        lemma_digit_run_to_end(s, i + 1);
    }
}

/// Decoding looks at the same bytes after a prefix is put in front.
proof fn lemma_char_shift(p: Seq<u8>, q: Seq<u8>, j: int)
    requires
        0 <= j,
    ensures
        utf8_char_at(p + q, p.len() + j) == utf8_char_at(q, j),
        digit_len_at(p + q, p.len() + j) == digit_len_at(q, j),
{
    let s = p + q;
    let k = p.len() + j;
    if j < q.len() {
        assert(s[k] == q[j]);
    }
    if j + 1 < q.len() {
        assert(s[k + 1] == q[j + 1]);
    }
    if j + 2 < q.len() {
        assert(s[k + 2] == q[j + 2]);
    }
    if j + 3 < q.len() {
        assert(s[k + 3] == q[j + 3]);
    }
}

proof fn lemma_digit_run_shift(p: Seq<u8>, q: Seq<u8>, j: int)
    requires
        0 <= j <= q.len(),
    ensures
        digit_run_end(p + q, p.len() + j) == p.len() + digit_run_end(q, j),
    decreases q.len() - j,
{
    lemma_char_shift(p, q, j);
    lemma_digit_len(q, j);
    if digit_len_at(q, j) > 0 {
        lemma_digit_run_shift(p, q, j + digit_len_at(q, j));
    }
}

proof fn lemma_marker_shift(p: Seq<u8>, q: Seq<u8>, j: int, marker: Seq<u8>)
    requires
        0 <= j,
    ensures
        marker_at(p + q, p.len() + j, marker) == marker_at(q, j, marker),
{
    if j + 3 <= q.len() {
        assert((p + q).subrange(p.len() + j, p.len() + j + 3) =~= q.subrange(j, j + 3));
    }
}

proof fn lemma_delimiter_shift(p: Seq<u8>, q: Seq<u8>, j: int)
    requires
        0 <= j,
    ensures
        delimiter_at(p + q, p.len() + j) == delimiter_at(q, j),
{
    lemma_marker_shift(p, q, j, frame_marker());
    if j + 3 <= q.len() {
        lemma_digit_run_shift(p, q, j + 3);
        lemma_digit_run(q, j + 3);
        lemma_marker_shift(p, q, digit_run_end(q, j + 3), frame_marker());
    }
}

proof fn lemma_no_delimiter_from(s: Seq<u8>, from: int)
    requires
        forall|j: int| from <= j < s.len() ==> !delimiter_at(s, j),
    ensures
        next_delimiter(s, from) is None,
    decreases s.len() - from,
{
    if from < s.len() {
        lemma_no_delimiter_from(s, from + 1);
    }
}

proof fn lemma_decimal(n: nat)
    ensures
        decimal(n).len() >= 1,
        forall|j: int| 0 <= j < decimal(n).len() ==> is_ascii_digit(#[trigger] decimal(n)[j]),
        digits_value(decimal(n)) == n,
    decreases n,
{
    let d = decimal(n);
    if n >= 10 {
        lemma_decimal(n / 10);
        assert(d.drop_last() =~= decimal(n / 10));
        assert(d.last() == (48 + n % 10) as u8);
        assert(((48 + n % 10) as u8 - 48) as nat == n % 10);
        assert((n / 10) * 10 + n % 10 == n);
        assert(digits_value(d) == digits_value(d.drop_last()) * 10 + (d.last() - 48) as nat);
        assert(digits_value(d.drop_last()) == n / 10);
    } else {
        assert(d.drop_last() =~= Seq::<u8>::empty());
        assert(((48 + n) as u8 - 48) as nat == n);
        assert(digits_value(d) == digits_value(d.drop_last()) * 10 + (d.last() - 48) as nat);
    }
}

proof fn lemma_digits_value_step(s: Seq<u8>, from: int, to: int)
    requires
        0 <= from <= to < s.len(),
    ensures
        digits_value(s.subrange(from, to + 1)) == digits_value(s.subrange(from, to)) * 10 + (s[to]
            - 48) as nat,
{
    assert(s.subrange(from, to + 1).drop_last() =~= s.subrange(from, to));
}

proof fn lemma_digits_value_grows(s: Seq<u8>, from: int, mid: int, to: int)
    requires
        0 <= from <= mid <= to <= s.len(),
        forall|j: int| from <= j < to ==> is_ascii_digit(#[trigger] s[j]),
    ensures
        digits_value(s.subrange(from, mid)) <= digits_value(s.subrange(from, to)),
    decreases to - mid,
{
    if mid < to {
        lemma_digits_value_grows(s, from, mid, to - 1);
        lemma_digits_value_step(s, from, to - 1);
    }
}

// ---------------------------------------------------------------------------
// Reading packets

/// Copies `s[from..to]`.
fn copy_range(s: &Vec<u8>, from: usize, to: usize) -> (piece: Vec<u8>)
    requires
        from <= to <= s.len(),
    ensures
        piece@ == s@.subrange(from as int, to as int),
{
    let mut piece: Vec<u8> = Vec::new();
    let mut j: usize = from;
    while j < to
        invariant
            from <= j <= to,
            to <= s.len(),
            piece@ == s@.subrange(from as int, j as int),
        decreases to - j,
    {
        piece.push(s[j]);
        assert(s@.subrange(from as int, j + 1) =~= s@.subrange(from as int, j as int).push(s@[j as int]));
        j = j + 1;
    }
    piece
}

/// Whether the code point `c` is a decimal digit.
fn is_decimal_digit_code(c: u32) -> (digit: bool)
    ensures
        digit == is_decimal_digit(c as int),
{
    (0x30 <= c && c <= 0x39) ||
    (0x660 <= c && c <= 0x669) ||
    (0x6f0 <= c && c <= 0x6f9) ||
    (0x7c0 <= c && c <= 0x7c9) ||
    (0x966 <= c && c <= 0x96f) ||
    (0x9e6 <= c && c <= 0x9ef) ||
    (0xa66 <= c && c <= 0xa6f) ||
    (0xae6 <= c && c <= 0xaef) ||
    (0xb66 <= c && c <= 0xb6f) ||
    (0xbe6 <= c && c <= 0xbef) ||
    (0xc66 <= c && c <= 0xc6f) ||
    (0xce6 <= c && c <= 0xcef) ||
    (0xd66 <= c && c <= 0xd6f) ||
    (0xde6 <= c && c <= 0xdef) ||
    (0xe50 <= c && c <= 0xe59) ||
    (0xed0 <= c && c <= 0xed9) ||
    (0xf20 <= c && c <= 0xf29) ||
    (0x1040 <= c && c <= 0x1049) ||
    (0x1090 <= c && c <= 0x1099) ||
    (0x17e0 <= c && c <= 0x17e9) ||
    (0x1810 <= c && c <= 0x1819) ||
    (0x1946 <= c && c <= 0x194f) ||
    (0x19d0 <= c && c <= 0x19d9) ||
    (0x1a80 <= c && c <= 0x1a89) ||
    (0x1a90 <= c && c <= 0x1a99) ||
    (0x1b50 <= c && c <= 0x1b59) ||
    (0x1bb0 <= c && c <= 0x1bb9) ||
    (0x1c40 <= c && c <= 0x1c49) ||
    (0x1c50 <= c && c <= 0x1c59) ||
    (0xa620 <= c && c <= 0xa629) ||
    (0xa8d0 <= c && c <= 0xa8d9) ||
    (0xa900 <= c && c <= 0xa909) ||
    (0xa9d0 <= c && c <= 0xa9d9) ||
    (0xa9f0 <= c && c <= 0xa9f9) ||
    (0xaa50 <= c && c <= 0xaa59) ||
    (0xabf0 <= c && c <= 0xabf9) ||
    (0xff10 <= c && c <= 0xff19) ||
    (0x104a0 <= c && c <= 0x104a9) ||
    (0x10d30 <= c && c <= 0x10d39) ||
    (0x10d40 <= c && c <= 0x10d49) ||
    (0x11066 <= c && c <= 0x1106f) ||
    (0x110f0 <= c && c <= 0x110f9) ||
    (0x11136 <= c && c <= 0x1113f) ||
    (0x111d0 <= c && c <= 0x111d9) ||
    (0x112f0 <= c && c <= 0x112f9) ||
    (0x11450 <= c && c <= 0x11459) ||
    (0x114d0 <= c && c <= 0x114d9) ||
    (0x11650 <= c && c <= 0x11659) ||
    (0x116c0 <= c && c <= 0x116c9) ||
    (0x116d0 <= c && c <= 0x116e3) ||
    (0x11730 <= c && c <= 0x11739) ||
    (0x118e0 <= c && c <= 0x118e9) ||
    (0x11950 <= c && c <= 0x11959) ||
    (0x11bf0 <= c && c <= 0x11bf9) ||
    (0x11c50 <= c && c <= 0x11c59) ||
    (0x11d50 <= c && c <= 0x11d59) ||
    (0x11da0 <= c && c <= 0x11da9) ||
    (0x11f50 <= c && c <= 0x11f59) ||
    (0x16130 <= c && c <= 0x16139) ||
    (0x16a60 <= c && c <= 0x16a69) ||
    (0x16ac0 <= c && c <= 0x16ac9) ||
    (0x16b50 <= c && c <= 0x16b59) ||
    (0x16d70 <= c && c <= 0x16d79) ||
    (0x1ccf0 <= c && c <= 0x1ccf9) ||
    (0x1d7ce <= c && c <= 0x1d7ff) ||
    (0x1e140 <= c && c <= 0x1e149) ||
    (0x1e2f0 <= c && c <= 0x1e2f9) ||
    (0x1e4f0 <= c && c <= 0x1e4f9) ||
    (0x1e5f1 <= c && c <= 0x1e5fa) ||
    (0x1e950 <= c && c <= 0x1e959) ||
    (0x1fbf0 <= c && c <= 0x1fbf9)
}

/// Decodes the well-formed UTF-8 character that starts at `i`, if one does.
fn char_at(s: &Vec<u8>, i: usize) -> (decoded: Option<(u32, usize)>)
    ensures
        match decoded {
            Some((c, len)) => utf8_char_at(s@, i as int) == Some((c as int, len as int)),
            None => utf8_char_at(s@, i as int) is None,
        },
{
    let n = s.len();
    if i >= n {
        return None;
    }
    let b0 = s[i] as u32;
    if b0 < 0x80 {
        return Some((b0, 1));
    }
    if 0xC2 <= b0 && b0 <= 0xDF && n - i > 1 && 0x80 <= s[i + 1] && s[i + 1] <= 0xBF {
        let c = (b0 - 0xC0) * 64 + (s[i + 1] as u32 - 0x80);
        return Some((c, 2));
    }
    if 0xE0 <= b0 && b0 <= 0xEF && n - i > 2 && 0x80 <= s[i + 1] && s[i + 1] <= 0xBF && 0x80 <= s[i + 2]
        && s[i + 2] <= 0xBF {
        let c = ((b0 - 0xE0) * 64 + (s[i + 1] as u32 - 0x80)) * 64 + (s[i + 2] as u32 - 0x80);
        if 0x800 <= c && !(0xD800 <= c && c <= 0xDFFF) {
            return Some((c, 3));
        }
        return None;
    }
    if 0xF0 <= b0 && b0 <= 0xF4 && n - i > 3 && 0x80 <= s[i + 1] && s[i + 1] <= 0xBF && 0x80 <= s[i + 2]
        && s[i + 2] <= 0xBF && 0x80 <= s[i + 3] && s[i + 3] <= 0xBF {
        let c = (((b0 - 0xF0) * 64 + (s[i + 1] as u32 - 0x80)) * 64 + (s[i + 2] as u32 - 0x80)) * 64 + (s[i
            + 3] as u32 - 0x80);
        if 0x10000 <= c && c <= 0x10FFFF {
            return Some((c, 4));
        }
        return None;
    }
    None
}

/// The length in bytes of the decimal digit that starts at `i`, or 0.
fn digit_len(s: &Vec<u8>, i: usize) -> (len: usize)
    ensures
        len == digit_len_at(s@, i as int),
{
    match char_at(s, i) {
        Some((c, len)) => if is_decimal_digit_code(c) {
            len
        } else {
            0
        },
        None => 0,
    }
}

/// Where the run of decimal digits that starts at `i` ends.
fn find_digit_run_end(s: &Vec<u8>, i: usize) -> (end: usize)
    requires
        i <= s.len(),
    ensures
        end == digit_run_end(s@, i as int),
        i <= end <= s.len(),
{
    let mut k: usize = i;
    let mut len = digit_len(s, k);
    while len > 0
        invariant
            i <= k <= s.len(),
            len == digit_len_at(s@, k as int),
            digit_run_end(s@, k as int) == digit_run_end(s@, i as int),
        decreases s.len() - k,
    {
        proof {
            lemma_digit_len(s@, k as int);
        }
        k = k + len;
        len = digit_len(s, k);
    }
    k
}

/// Every byte of `s[from..to]` is an ASCII digit.
fn ascii_digits_between(s: &Vec<u8>, from: usize, to: usize) -> (all: bool)
    requires
        from <= to <= s.len(),
    ensures
        all == all_ascii_digits(s@.subrange(from as int, to as int)),
{
    let mut j: usize = from;
    while j < to
        invariant
            from <= j <= to,
            to <= s.len(),
            forall|t: int| from <= t < j ==> is_ascii_digit(#[trigger] s@[t]),
        decreases to - j,
    {
        if !(48 <= s[j] && s[j] <= 57) {
            assert(s@.subrange(from as int, to as int)[j - from] == s@[j as int]);
            return false;
        }
        j = j + 1;
    }
    assert forall|t: int| 0 <= t < to - from implies is_ascii_digit(#[trigger] s@.subrange(from as int, to as int)[t]) by {
        assert(s@.subrange(from as int, to as int)[t] == s@[from + t]);
    }
    true
}

/// The three bytes at `i` are `~`, `letter`, `~`.
fn has_marker_at(s: &Vec<u8>, i: usize, letter: u8) -> (found: bool)
    ensures
        found == marker_at(s@, i as int, seq![126u8, letter, 126u8]),
{
    if i <= s.len() && s.len() - i >= 3 {
        assert(s@.subrange(i as int, i + 3) =~= seq![s@[i as int], s@[i + 1], s@[i + 2]]);
        s[i] == 126 && s[i + 1] == letter && s[i + 2] == 126
    } else {
        false
    }
}

/// The end of the delimiter that starts at `i`, if one does.
fn delimiter_end_at(s: &Vec<u8>, i: usize) -> (end: Option<usize>)
    ensures
        match end {
            Some(e) => delimiter_at(s@, i as int) && e == delimiter_end(s@, i as int),
            None => !delimiter_at(s@, i as int),
        },
{
    if !has_marker_at(s, i, 109) {
        return None;
    }
    let n = s.len();
    assert(i + 3 <= n);
    let k = find_digit_run_end(s, i + 3);
    if k > i + 3 && has_marker_at(s, k, 109) {
        Some(k + 3)
    } else {
        None
    }
}

/// Splits a received packet into its payloads: the text between the
/// `~m~<length>~m~` delimiters, in order, leaving out empty pieces.
pub fn split_frames(packet: &Vec<u8>) -> (payloads: Vec<Vec<u8>>)
    ensures
        byte_views(payloads@) == frame_payloads(packet@, 0),
{
    let n = packet.len();
    let mut payloads: Vec<Vec<u8>> = Vec::new();
    let mut pos: usize = 0;
    let mut i: usize = 0;
    assert(byte_views(payloads@) =~= Seq::<Seq<u8>>::empty());
    assert(frame_payloads(packet@, 0) =~= byte_views(payloads@) + frame_payloads(packet@, 0));
    while i < n
        invariant
            n == packet.len(),
            pos <= i <= n,
            frame_payloads(packet@, 0) == byte_views(payloads@) + frame_payloads(packet@, pos as int),
            next_delimiter(packet@, pos as int) == next_delimiter(packet@, i as int),
        decreases n - i,
    {
        match delimiter_end_at(packet, i) {
            Some(end) => {
                proof {
                    lemma_next_delimiter(packet@, i as int);
                }
                let ghost before = byte_views(payloads@);
                let ghost rest = frame_payloads(packet@, end as int);
                if pos < i {
                    let piece = copy_range(packet, pos, i);
                    payloads.push(piece);
                    assert(byte_views(payloads@) =~= before.push(piece@));
                    assert(frame_payloads(packet@, pos as int) =~= seq![piece@] + rest);
                    assert(before + (seq![piece@] + rest) =~= before.push(piece@) + rest);
                } else {
                    assert(frame_payloads(packet@, pos as int) =~= rest);
                }
                pos = end;
                i = end;
            },
            None => {
                i = i + 1;
            },
        }
    }
    if pos < n {
        let ghost before = byte_views(payloads@);
        let piece = copy_range(packet, pos, n);
        payloads.push(piece);
        assert(byte_views(payloads@) =~= before.push(piece@));
        assert(frame_payloads(packet@, pos as int) =~= seq![piece@]);
    } else {
        assert(frame_payloads(packet@, pos as int) =~= Seq::<Seq<u8>>::empty());
    }
    payloads
}

/// Reads the decimal number spelled by the digits `s[from..to]`, or `None`
/// when it does not fit in a `usize`.
fn parse_digits(s: &Vec<u8>, from: usize, to: usize) -> (value: Option<usize>)
    requires
        from <= to <= s.len(),
        forall|j: int| from <= j < to ==> is_ascii_digit(#[trigger] s@[j]),
    ensures
        match value {
            Some(v) => v == digits_value(s@.subrange(from as int, to as int)),
            None => digits_value(s@.subrange(from as int, to as int)) > usize::MAX,
        },
{
    let mut acc: usize = 0;
    let mut j: usize = from;
    assert(s@.subrange(from as int, from as int) =~= Seq::<u8>::empty());
    while j < to
        invariant
            from <= j <= to,
            to <= s.len(),
            forall|t: int| from <= t < to ==> is_ascii_digit(#[trigger] s@[t]),
            acc == digits_value(s@.subrange(from as int, j as int)),
        decreases to - j,
    {
        proof {
            lemma_digits_value_step(s@, from as int, j as int);
        }
        let digit: usize = (s[j] - 48) as usize;
        let next = match acc.checked_mul(10) {
            Some(tens) => tens.checked_add(digit),
            None => None,
        };
        match next {
            Some(v) => {
                acc = v;
            },
            None => {
                proof {
                    lemma_digits_value_grows(s@, from as int, j + 1, to as int);
                }
                return None;
            },
        }
        j = j + 1;
    }
    Some(acc)
}

/// Where a heartbeat starts at `i`, the end of its digits.
fn heartbeat_digits_end_at(s: &Vec<u8>, i: usize) -> (end: Option<usize>)
    ensures
        match end {
            Some(e) => heartbeat_at(s@, i as int) && e == digit_run_end(s@, i + 3),
            None => !heartbeat_at(s@, i as int),
        },
{
    if !has_marker_at(s, i, 104) {
        return None;
    }
    let n = s.len();
    assert(i + 3 <= n);
    let k = find_digit_run_end(s, i + 3);
    if k > i + 3 {
        Some(k)
    } else {
        None
    }
}

/// Tells a heartbeat payload from a data payload. A payload is a heartbeat
/// when `~h~` followed by digits occurs in it; the first occurrence gives the
/// id, which must be written in ASCII digits and fit in a `usize`.
pub fn classify_payload(payload: &Vec<u8>) -> (kind: PayloadKind)
    ensures
        kind == spec_payload_kind(payload@),
{
    let n = payload.len();
    let mut i: usize = 0;
    while i < n
        invariant
            n == payload.len(),
            i <= n,
            next_heartbeat(payload@, 0) == next_heartbeat(payload@, i as int),
        decreases n - i,
    {
        match heartbeat_digits_end_at(payload, i) {
            Some(end) => {
                proof {
                    lemma_digit_run(payload@, i + 3);
                }
                if !ascii_digits_between(payload, i + 3, end) {
                    return PayloadKind::HeartbeatUnreadable;
                }
                proof {
                    let run = payload@.subrange(i + 3, end as int);
                    assert forall|j: int| i + 3 <= j < end implies is_ascii_digit(#[trigger] payload@[j]) by {
                        assert(run[j - (i + 3)] == payload@[j]);
                    }
                }
                return match parse_digits(payload, i + 3, end) {
                    Some(id) => PayloadKind::Heartbeat(id),
                    None => PayloadKind::HeartbeatUnreadable,
                };
            },
            None => {
                i = i + 1;
            },
        }
    }
    PayloadKind::Data
}

// ---------------------------------------------------------------------------
// Writing packets

/// The decimal text of `n`.
pub fn decimal_bytes(n: usize) -> (text: Vec<u8>)
    ensures
        text@ == decimal(n as nat),
    decreases n,
{
    if n < 10 {
        let mut text: Vec<u8> = Vec::new();
        text.push((48 + n) as u8);
        assert(text@ =~= decimal(n as nat));
        text
    } else {
        let mut text = decimal_bytes(n / 10);
        text.push((48 + n % 10) as u8);
        text
    }
}

/// Appends `~`, `letter`, `~`.
fn push_marker(text: &mut Vec<u8>, letter: u8)
    ensures
        final(text)@ == old(text)@ + seq![126u8, letter, 126u8],
{
    text.push(126);
    text.push(letter);
    text.push(126);
    assert(text@ =~= old(text)@ + seq![126u8, letter, 126u8]);
}

/// The packet that carries `payload`: `~m~`, the payload's length in bytes,
/// `~m~`, then the payload.
pub fn frame_payload(payload: &Vec<u8>) -> (packet: Vec<u8>)
    ensures
        packet@ == framed(payload@),
{
    let mut packet: Vec<u8> = Vec::new();
    push_marker(&mut packet, 109);
    let mut length = decimal_bytes(payload.len());
    packet.append(&mut length);
    push_marker(&mut packet, 109);
    let mut body = payload.clone();
    packet.append(&mut body);
    assert(packet@ =~= framed(payload@));
    packet
}

/// The heartbeat payload that answers heartbeat `id`: `~h~` and the id.
pub fn heartbeat_payload(id: usize) -> (payload: Vec<u8>)
    ensures
        payload@ == heartbeat_text(id as nat),
{
    let mut payload: Vec<u8> = Vec::new();
    push_marker(&mut payload, 104);
    let mut digits = decimal_bytes(id);
    payload.append(&mut digits);
    assert(payload@ =~= heartbeat_text(id as nat));
    payload
}

proof fn lemma_digit_run_exact(s: Seq<u8>, i: int, e: int)
    requires
        0 <= i <= e <= s.len(),
        forall|j: int| i <= j < e ==> is_ascii_digit(#[trigger] s[j]),
        digit_len_at(s, e) == 0,
    ensures
        digit_run_end(s, i) == e,
    decreases e - i,
{
    lemma_digit_len(s, i);
    if i < e {
        lemma_digit_run_exact(s, i + 1, e);
    }
}

// ---------------------------------------------------------------------------
// Laws

/// A heartbeat answer is read back as a heartbeat with the same id.
pub proof fn law_heartbeat_round_trip(id: usize)
    ensures
        spec_payload_kind(heartbeat_text(id as nat)) == PayloadKind::Heartbeat(id),
{
    let d = decimal(id as nat);
    let t = heartbeat_text(id as nat);
    lemma_decimal(id as nat);
    assert(t.subrange(0, 3) =~= heartbeat_marker());
    lemma_digit_run_to_end(d, 0);
    lemma_digit_run_shift(heartbeat_marker(), d, 0);
    assert(heartbeat_at(t, 0));
    assert(next_heartbeat(t, 0) == Some(0int));
    assert(t.subrange(3, 3 + d.len() as int) =~= d);
}

/// Framing a payload and splitting the packet gives the payload back, for
/// every non-empty payload that holds no delimiter of its own.
pub proof fn law_frame_round_trip(payload: Seq<u8>)
    requires
        payload.len() > 0,
        next_delimiter(payload, 0) is None,
    ensures
        frame_payloads(framed(payload), 0) == seq![payload],
{
    let m = frame_marker();
    let d = decimal(payload.len());
    let t = framed(payload);
    let rest = d + m + payload;
    let pre = m + d + m;
    let h = pre.len() as int;
    lemma_decimal(payload.len());
    assert(t =~= m + rest);
    assert(t =~= pre + payload);
    // the header `~m~<length>~m~` is a delimiter
    assert(t.subrange(0, 3) =~= m);
    lemma_digit_run_exact(rest, 0, d.len() as int);
    lemma_digit_run_shift(m, rest, 0);
    assert(t.subrange(3 + d.len() as int, 6 + d.len() as int) =~= m);
    assert(delimiter_at(t, 0));
    assert(next_delimiter(t, 0) == Some(0int));
    assert(delimiter_end(t, 0) == h);
    // the payload holds none
    lemma_next_delimiter(payload, 0);
    assert forall|j: int| h <= j < t.len() implies !delimiter_at(t, j) by {
        lemma_delimiter_shift(pre, payload, j - h);
    }
    lemma_no_delimiter_from(t, h);
    assert(t.subrange(h, t.len() as int) =~= payload);
    assert(frame_payloads(t, h) =~= seq![payload]);
    assert(frame_payloads(t, 0) =~= Seq::<Seq<u8>>::empty() + frame_payloads(t, h));
}

/// No payload read out of a packet is empty.
pub proof fn law_payloads_are_never_empty(s: Seq<u8>, from: int)
    requires
        0 <= from,
    ensures
        forall|k: int| 0 <= k < frame_payloads(s, from).len() ==> (#[trigger] frame_payloads(s, from)[k]).len() > 0,
    decreases s.len() - from,
{
    lemma_next_delimiter(s, from);
    match next_delimiter(s, from) {
        None => {},
        Some(i) => {
            let end = delimiter_end(s, i);
            law_payloads_are_never_empty(s, end);
            let head: Seq<Seq<u8>> = if from < i {
                seq![s.subrange(from, i)]
            } else {
                seq![]
            };
            let rest = frame_payloads(s, end);
            assert(frame_payloads(s, from) == head + rest);
            assert forall|k: int| 0 <= k < frame_payloads(s, from).len() implies (#[trigger] frame_payloads(
                s,
                from,
            )[k]).len() > 0 by {
                if k >= head.len() {
                    assert(frame_payloads(s, from)[k] == rest[k - head.len()]);
                }
            }
        },
    }
}

} // verus!
