use vstd::prelude::*;
use vstd::slice::{slice_index_get, slice_subrange};
use vstd::string::StringExecFns;

verus! {

/// Mathematical model of a decoded timecode frame.
#[verifier::ext_equal]
pub ghost struct FrameModel {
    pub frame: u8,
    pub second: u8,
    pub minute: u8,
    pub hour: u8,
    pub flag_drop: bool,
    pub flag_color: bool,
    pub flag_clock: bool,
    pub userdata_format: Seq<bool>,
    pub userdata: Seq<bool>,
}

/// A decoded timecode frame: frame/second/minute/hour numbers, the three
/// flags, the three user-bit-format bits, and the 32 user-data bits.
#[derive(Debug, Eq, PartialEq, Clone)]
pub struct LtcFrame {
    frame: u8,
    second: u8,
    minute: u8,
    hour: u8,
    flag_drop: bool,
    flag_color: bool,
    flag_clock: bool,
    userdata_format: Vec<bool>,
    userdata: Vec<bool>,
}

impl View for LtcFrame {
    type V = FrameModel;

    closed spec fn view(&self) -> FrameModel {
        FrameModel {
            frame: self.frame,
            second: self.second,
            minute: self.minute,
            hour: self.hour,
            flag_drop: self.flag_drop,
            flag_color: self.flag_color,
            flag_clock: self.flag_clock,
            userdata_format: self.userdata_format@,
            userdata: self.userdata@,
        }
    }
}

pub open spec fn bit_val(b: bool) -> int {
    if b {
        1
    } else {
        0
    }
}

/// Value of a little-endian binary field of up to four bits: bit 0 is the
/// least significant; missing bits count as zero.
pub open spec fn digit_of(s: Seq<bool>) -> int {
    (if s.len() >= 1 {
        bit_val(s[0])
    } else {
        0
    }) + (if s.len() >= 2 {
        2 * bit_val(s[1])
    } else {
        0
    }) + (if s.len() >= 3 {
        4 * bit_val(s[2])
    } else {
        0
    }) + (if s.len() >= 4 {
        8 * bit_val(s[3])
    } else {
        0
    })
}

/// Value of a packed-decimal pair: a units digit and a tens digit, each a
/// little-endian binary field.
pub open spec fn bcd_of(one: Seq<bool>, ten: Seq<bool>) -> int {
    digit_of(one) + digit_of(ten) * 10
}

/// The frame decoded from an 80-bit buffer, by the fixed field layout:
/// packed-decimal frame/second/minute/hour fields, the drop-frame,
/// color-frame and clock flags, the three user-bit-format bits, and the
/// eight four-bit user-data groups in field order.
pub open spec fn frame_model_of(s: Seq<bool>) -> FrameModel {
    FrameModel {
        frame: bcd_of(s.subrange(0, 4), s.subrange(8, 10)) as u8,
        second: bcd_of(s.subrange(16, 20), s.subrange(24, 27)) as u8,
        minute: bcd_of(s.subrange(32, 36), s.subrange(40, 43)) as u8,
        hour: bcd_of(s.subrange(48, 52), s.subrange(56, 58)) as u8,
        flag_drop: s[10],
        flag_color: s[11],
        flag_clock: s[58],
        userdata_format: seq![s[27], s[43], s[59]],
        userdata: s.subrange(4, 8) + s.subrange(12, 16) + s.subrange(20, 24) + s.subrange(28, 32)
            + s.subrange(36, 40) + s.subrange(44, 48) + s.subrange(52, 56) + s.subrange(60, 64),
    }
}

/// Reads a little-endian binary field of up to four bits.
pub fn read_digit(data: &[bool]) -> (result: u8)
    ensures
        result as int == digit_of(data@),
{
    let mut result: u8 = 0;
    if data.len() >= 1 && *slice_index_get(data, 0) {
        result = result + 1;
    }
    if data.len() >= 2 && *slice_index_get(data, 1) {
        result = result + 2;
    }
    if data.len() >= 3 && *slice_index_get(data, 2) {
        result = result + 4;
    }
    if data.len() >= 4 && *slice_index_get(data, 3) {
        result = result + 8;
    }
    result
}

/// Combines a units digit and a tens digit into one packed-decimal value.
pub fn read_bcd(one: &[bool], ten: &[bool]) -> (result: u8)
    ensures
        result as int == bcd_of(one@, ten@),
{
    read_digit(one) + read_digit(ten) * 10
}

/// Appends `src[start..end]` to `dst`.
fn push_range(dst: &mut Vec<bool>, src: &[bool], start: usize, end: usize)
    requires
        start <= end <= src@.len(),
    ensures
        final(dst)@ == old(dst)@ + src@.subrange(start as int, end as int),
{
    let ghost d0 = dst@;
    let mut k = start;
    while k < end
        invariant
            start <= k <= end <= src@.len(),
            dst@ == d0 + src@.subrange(start as int, k as int),
        decreases end - k,
    {
        dst.push(*slice_index_get(src, k));
        assert(d0 + src@.subrange(start as int, k as int) + seq![src@[k as int]] =~= d0
            + src@.subrange(start as int, k as int + 1));
        k = k + 1;
    }
}

pub open spec fn digit_char(d: int) -> char {
    if d == 0 {
        '0'
    } else if d == 1 {
        '1'
    } else if d == 2 {
        '2'
    } else if d == 3 {
        '3'
    } else if d == 4 {
        '4'
    } else if d == 5 {
        '5'
    } else if d == 6 {
        '6'
    } else if d == 7 {
        '7'
    } else if d == 8 {
        '8'
    } else {
        '9'
    }
}

/// Decimal rendering of `n` padded with zeroes to at least two digits.
pub open spec fn padded2_chars(n: int) -> Seq<char> {
    if n < 100 {
        seq![digit_char(n / 10), digit_char(n % 10)]
    } else {
        seq![digit_char(n / 100), digit_char((n / 10) % 10), digit_char(n % 10)]
    }
}

/// Decimal rendering of `n` padded with zeroes to at least three digits.
pub open spec fn padded3_chars(n: int) -> Seq<char> {
    seq![digit_char(n / 100), digit_char((n / 10) % 10), digit_char(n % 10)]
}

/// The `HH:MM:SS:FFF` rendering of a frame: hour, minute and second padded
/// to two digits, the frame number padded to three.
pub open spec fn timecode_chars(m: FrameModel) -> Seq<char> {
    padded2_chars(m.hour as int) + seq![':'] + padded2_chars(m.minute as int) + seq![':']
        + padded2_chars(m.second as int) + seq![':'] + padded3_chars(m.frame as int)
}

fn digit_str(d: u8) -> (r: &'static str)
    requires
        d < 10,
    ensures
        r@ == seq![digit_char(d as int)],
{
    proof {
        reveal_strlit("0");
        reveal_strlit("1");
        reveal_strlit("2");
        reveal_strlit("3");
        reveal_strlit("4");
        reveal_strlit("5");
        reveal_strlit("6");
        reveal_strlit("7");
        reveal_strlit("8");
        reveal_strlit("9");
    }
    if d == 0 {
        "0"
    } else if d == 1 {
        "1"
    } else if d == 2 {
        "2"
    } else if d == 3 {
        "3"
    } else if d == 4 {
        "4"
    } else if d == 5 {
        "5"
    } else if d == 6 {
        "6"
    } else if d == 7 {
        "7"
    } else if d == 8 {
        "8"
    } else {
        "9"
    }
}

fn push_padded2(s: &mut String, n: u8)
    ensures
        final(s)@ == old(s)@ + padded2_chars(n as int),
{
    if n < 100 {
        s.append(digit_str(n / 10));
        s.append(digit_str(n % 10));
    } else {
        s.append(digit_str(n / 100));
        s.append(digit_str((n / 10) % 10));
        s.append(digit_str(n % 10));
    }
    assert(s@ =~= old(s)@ + padded2_chars(n as int));
}

fn push_padded3(s: &mut String, n: u8)
    ensures
        final(s)@ == old(s)@ + padded3_chars(n as int),
{
    s.append(digit_str(n / 100));
    s.append(digit_str((n / 10) % 10));
    s.append(digit_str(n % 10));
    assert(s@ =~= old(s)@ + padded3_chars(n as int));
}

/// One character per bit: '1' for a set bit, '0' for a clear one.
pub open spec fn bits_chars(s: Seq<bool>) -> Seq<char> {
    s.map_values(
        |b: bool|
            if b {
                '1'
            } else {
                '0'
            },
    )
}

/// Renders a bit sequence as a string of '0' and '1' characters.
pub fn format_bits(data: &[bool]) -> (r: String)
    ensures
        r@ == bits_chars(data@),
{
    proof {
        reveal_strlit("0");
        reveal_strlit("1");
    }
    let mut r = String::new();
    let n = data.len();
    let mut i: usize = 0;
    while i < n
        invariant
            n == data@.len(),
            0 <= i <= n,
            r@ =~= bits_chars(data@.take(i as int)),
        decreases n - i,
    {
        proof {
            reveal_strlit("0");
            reveal_strlit("1");
        }
        if *slice_index_get(data, i) {
            r.append("1");
        } else {
            r.append("0");
        }
        assert(r@ =~= bits_chars(data@.take(i as int + 1)));
        i = i + 1;
    }
    assert(data@.take(n as int) =~= data@);
    r
}

impl LtcFrame {
    /// Decodes an 80-bit buffer by the fixed frame layout.
    pub fn read(data: &[bool]) -> (result: LtcFrame)
        requires
            data@.len() == 80,
        ensures
            result@ == frame_model_of(data@),
    {
        let frame = read_bcd(slice_subrange(data, 0, 4), slice_subrange(data, 8, 10));
        let second = read_bcd(slice_subrange(data, 16, 20), slice_subrange(data, 24, 27));
        let minute = read_bcd(slice_subrange(data, 32, 36), slice_subrange(data, 40, 43));
        let hour = read_bcd(slice_subrange(data, 48, 52), slice_subrange(data, 56, 58));
        let flag_drop = *slice_index_get(data, 10);
        let flag_color = *slice_index_get(data, 11);
        let flag_clock = *slice_index_get(data, 58);
        let mut userdata_format: Vec<bool> = Vec::new();
        userdata_format.push(*slice_index_get(data, 27));
        userdata_format.push(*slice_index_get(data, 43));
        userdata_format.push(*slice_index_get(data, 59));
        let mut userdata: Vec<bool> = Vec::new();
        push_range(&mut userdata, data, 4, 8);
        push_range(&mut userdata, data, 12, 16);
        push_range(&mut userdata, data, 20, 24);
        push_range(&mut userdata, data, 28, 32);
        push_range(&mut userdata, data, 36, 40);
        push_range(&mut userdata, data, 44, 48);
        push_range(&mut userdata, data, 52, 56);
        push_range(&mut userdata, data, 60, 64);
        let result = LtcFrame {
            frame,
            second,
            minute,
            hour,
            flag_drop,
            flag_color,
            flag_clock,
            userdata_format,
            userdata,
        };
        assert(result@.userdata_format =~= frame_model_of(data@).userdata_format);
        assert(result@.userdata =~= frame_model_of(data@).userdata);
        assert(result@ =~= frame_model_of(data@));
        result
    }

    pub fn frame(&self) -> (r: u8)
        ensures
            r == self@.frame,
    {
        self.frame
    }

    pub fn second(&self) -> (r: u8)
        ensures
            r == self@.second,
    {
        self.second
    }

    pub fn minute(&self) -> (r: u8)
        ensures
            r == self@.minute,
    {
        self.minute
    }

    pub fn hour(&self) -> (r: u8)
        ensures
            r == self@.hour,
    {
        self.hour
    }

    pub fn is_drop(&self) -> (r: bool)
        ensures
            r == self@.flag_drop,
    {
        self.flag_drop
    }

    pub fn is_color(&self) -> (r: bool)
        ensures
            r == self@.flag_color,
    {
        self.flag_color
    }

    pub fn is_clock(&self) -> (r: bool)
        ensures
            r == self@.flag_clock,
    {
        self.flag_clock
    }

    pub fn userdata_format(&self) -> (r: &[bool])
        ensures
            r@ == self@.userdata_format,
    {
        self.userdata_format.as_slice()
    }

    pub fn userdata(&self) -> (r: &[bool])
        ensures
            r@ == self@.userdata,
    {
        self.userdata.as_slice()
    }

    /// Renders the frame's timecode as `HH:MM:SS:FFF`.
    pub fn timecode(&self) -> (r: String)
        ensures
            r@ == timecode_chars(self@),
    {
        proof {
            reveal_strlit(":");
        }
        let mut r = String::new();
        push_padded2(&mut r, self.hour);
        r.append(":");
        push_padded2(&mut r, self.minute);
        r.append(":");
        push_padded2(&mut r, self.second);
        r.append(":");
        push_padded3(&mut r, self.frame);
        assert(r@ =~= timecode_chars(self@));
        r
    }
}

} // verus!
