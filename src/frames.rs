//! CAN-FD frames and their ASCII wire lines: encoding of outbound `can send`
//! commands and decoding of inbound `rcv` lines.
use vstd::prelude::*;
use crate::error::{InvalidFrameLength, ParseError, ParseFault};
use crate::hexcode::{decode, encode_upper, hex_decode, hex_upper};
use crate::text::{
    lemma_split_nonempty, parse_dec_u32, parse_hex_u16, parse_unsigned, split_spaces, split_tokens,
    trim, trim_ws,
};

verus! {

/// `CanFdFrame` represents a single frame of data on the CAN bus.
#[derive(Debug, Default)]
pub struct CanFdFrame {
    /// The arbitration id of the frame.
    pub arbitration_id: u16,
    /// The data of the frame, up to 64 bytes.
    pub data: Vec<u8>,
    /// If the frame has an extended id.
    pub extended_id: Option<bool>,
    /// If the frame has bit rate switching.
    pub brs: Option<bool>,
    /// If the frame is a CAN FD frame.
    pub fd_can_frame: Option<bool>,
    /// If the frame is a remote frame.
    pub remote_frame: Option<bool>,
    /// The timestamp of the frame, in microseconds.
    pub timestamp: Option<u32>,
}

/// The abstract value of a `CanFdFrame`.
pub struct FrameModel {
    pub arbitration_id: u16,
    pub data: Seq<u8>,
    pub extended_id: Option<bool>,
    pub brs: Option<bool>,
    pub fd_can_frame: Option<bool>,
    pub remote_frame: Option<bool>,
    pub timestamp: Option<u32>,
}

impl View for CanFdFrame {
    type V = FrameModel;

    open spec fn view(&self) -> FrameModel {
        FrameModel {
            arbitration_id: self.arbitration_id,
            data: self.data@,
            extended_id: self.extended_id,
            brs: self.brs,
            fd_can_frame: self.fd_can_frame,
            remote_frame: self.remote_frame,
            timestamp: self.timestamp,
        }
    }
}

/// Largest payload a frame can carry.
pub const MAX_DATA_LEN: usize = 64;

impl CanFdFrame {
    /// Create a new `CanFdFrame` with the given arbitration id and data, and no
    /// flags. Fails with the length of `data` when it exceeds 64 bytes.
    pub fn new(arbitration_id: u16, data: &[u8]) -> (r: Result<CanFdFrame, InvalidFrameLength>)
        ensures
            data@.len() > 64 ==> r == Err::<CanFdFrame, _>(InvalidFrameLength(data@.len() as usize)),
            data@.len() <= 64 ==> r is Ok && r->Ok_0@ == (FrameModel {
                arbitration_id,
                data: data@,
                extended_id: None,
                brs: None,
                fd_can_frame: None,
                remote_frame: None,
                timestamp: None,
            }),
    {
        if data.len() > MAX_DATA_LEN {
            return Err(InvalidFrameLength(data.len()));
        }
        Ok(CanFdFrame {
            arbitration_id,
            data: vstd::slice::slice_to_vec(data),
            extended_id: None,
            brs: None,
            fd_can_frame: None,
            remote_frame: None,
            timestamp: None,
        })
    }

    /// Create a new `CanFdFrame` with the given arbitration id, data and flags.
    /// Fails with the length of `data` when it exceeds 64 bytes.
    pub fn new_with_flags(
        arbitration_id: u16,
        data: &[u8],
        extended_id: Option<bool>,
        brs: Option<bool>,
        fd_can_frame: Option<bool>,
        remote_frame: Option<bool>,
        timestamp: Option<u32>,
    ) -> (r: Result<CanFdFrame, InvalidFrameLength>)
        ensures
            data@.len() > 64 ==> r == Err::<CanFdFrame, _>(InvalidFrameLength(data@.len() as usize)),
            data@.len() <= 64 ==> r is Ok && r->Ok_0@ == (FrameModel {
                arbitration_id,
                data: data@,
                extended_id,
                brs,
                fd_can_frame,
                remote_frame,
                timestamp,
            }),
    {
        if data.len() > MAX_DATA_LEN {
            return Err(InvalidFrameLength(data.len()));
        }
        Ok(CanFdFrame {
            arbitration_id,
            data: vstd::slice::slice_to_vec(data),
            extended_id,
            brs,
            fd_can_frame,
            remote_frame,
            timestamp,
        })
    }
}

/// The frame size that the adapter accepts for a payload of `n` bytes: `n`
/// itself up to 8, then the next of 12, 16, 20, 24, 32, 48, 64.
pub open spec fn padded_len(n: nat) -> nat {
    if n <= 8 {
        n
    } else if n <= 12 {
        12
    } else if n <= 16 {
        16
    } else if n <= 20 {
        20
    } else if n <= 24 {
        24
    } else if n <= 32 {
        32
    } else if n <= 48 {
        48
    } else {
        64
    }
}

/// The padding byte, `'P'`.
pub const PAD_BYTE: u8 = 0x50;

/// The payload followed by as many padding bytes as its frame size asks for.
pub open spec fn padded_data(d: Seq<u8>) -> Seq<u8> {
    d + Seq::new((padded_len(d.len()) - d.len()) as nat, |i: int| PAD_BYTE)
}

/// The big-endian bytes of an arbitration id.
pub open spec fn id_bytes(id: u16) -> Seq<u8> {
    seq![(id / 256) as u8, (id % 256) as u8]
}

/// The text of one optional flag on an outbound line: a space and the
/// upper-case letter when set, the lower-case letter when unset, nothing when
/// unspecified.
pub open spec fn flag_text(f: Option<bool>, lower: char, upper: char) -> Seq<char> {
    match f {
        Some(true) => seq![' ', upper],
        Some(false) => seq![' ', lower],
        None => Seq::empty(),
    }
}

/// `can send ` as characters.
pub open spec fn send_prefix() -> Seq<char> {
    seq!['c', 'a', 'n', ' ', 's', 'e', 'n', 'd', ' ']
}

/// The flags part of an outbound line, in the order brs, fd-frame, remote.
pub open spec fn flags_text(f: FrameModel) -> Seq<char> {
    flag_text(f.brs, 'b', 'B') + flag_text(f.fd_can_frame, 'f', 'F') + flag_text(
        f.remote_frame,
        'r',
        'R',
    )
}

/// The `can send` command line for a frame.
pub open spec fn encode_line(f: FrameModel) -> Seq<char> {
    send_prefix() + hex_upper(id_bytes(f.arbitration_id)) + seq![' '] + hex_upper(
        padded_data(f.data),
    ) + flags_text(f) + seq!['\n']
}

/// The frame size for a payload of `n` bytes.
fn padded_size(n: usize) -> (r: usize)
    requires
        n <= 64,
    ensures
        r == padded_len(n as nat),
{
    if n <= 8 {
        n
    } else if n <= 12 {
        12
    } else if n <= 16 {
        16
    } else if n <= 20 {
        20
    } else if n <= 24 {
        24
    } else if n <= 32 {
        32
    } else if n <= 48 {
        48
    } else {
        64
    }
}

/// Appends ` ` and a flag letter whose case carries the flag's value.
fn append_flag(line: &mut String, flag: Option<bool>, unset: &str, set: &str)
    ensures
        final(line)@ == old(line)@ + match flag {
            Some(true) => set@,
            Some(false) => unset@,
            None => Seq::empty(),
        },
{
    match flag {
        Some(true) => line.append(set),
        Some(false) => line.append(unset),
        None => {
            assert(old(line)@ + Seq::<char>::empty() =~= old(line)@);
        },
    }
}

/// The adapter communicates over serial using ASCII encoded lines.
/// `FdCanUSBFrame` holds one such line, outbound or inbound.
#[derive(Debug)]
pub struct FdCanUSBFrame(String);

impl View for FdCanUSBFrame {
    type V = Seq<char>;

    closed spec fn view(&self) -> Seq<char> {
        self.0@
    }
}

impl FdCanUSBFrame {
    /// Wraps a line of text. **No** validation is performed: the line is only
    /// checked when it is decoded into a `CanFdFrame`.
    pub fn from_line(line: &str) -> (r: FdCanUSBFrame)
        ensures
            r@ == line@,
    {
        FdCanUSBFrame(line.to_owned())
    }

    /// The line as UTF-8 bytes.
    pub fn as_bytes(&self) -> (r: &[u8])
        ensures
            r@ == vstd::utf8::encode_utf8(self@),
    {
        self.0.as_str().as_bytes()
    }

    /// The `can send` command for a frame: the id as four upper-case hex
    /// digits, the payload padded to its frame size with `0x50` bytes in
    /// upper-case hex, then the brs, fd-frame and remote flags.
    pub fn encode(frame: CanFdFrame) -> (r: FdCanUSBFrame)
        requires
            frame.data@.len() <= 64,
        ensures
            r@ == encode_line(frame@),
    {
        let ghost model = frame@;
        let id: [u8; 2] = [(frame.arbitration_id / 256) as u8, (frame.arbitration_id % 256) as u8];
        assert(id@ =~= id_bytes(frame.arbitration_id));
        let id_hex = encode_upper(id.as_slice());
        let target = padded_size(frame.data.len());
        let mut data = frame.data;
        while data.len() < target
            invariant
                model.data.len() <= data@.len() <= target,
                target == padded_len(model.data.len()),
                data@ =~= model.data + Seq::new((data@.len() - model.data.len()) as nat, |i: int| PAD_BYTE),
            decreases target - data.len(),
        {
            data.push(PAD_BYTE);
        }
        let data_hex = encode_upper(data.as_slice());
        let mut line = String::new();
        line.append("can send ");
        line.append(id_hex.as_str());
        line.append(" ");
        line.append(data_hex.as_str());
        append_flag(&mut line, frame.brs, " b", " B");
        append_flag(&mut line, frame.fd_can_frame, " f", " F");
        append_flag(&mut line, frame.remote_frame, " r", " R");
        line.append("\n");
        proof {
            reveal_strlit("can send ");
            reveal_strlit(" ");
            reveal_strlit(" b");
            reveal_strlit(" B");
            reveal_strlit(" f");
            reveal_strlit(" F");
            reveal_strlit(" r");
            reveal_strlit(" R");
            reveal_strlit("\n");
            assert(line@ =~= encode_line(model));
        }
        FdCanUSBFrame(line)
    }
}

/// `rcv` as characters.
pub open spec fn rcv_word() -> Seq<char> {
    seq!['r', 'c', 'v']
}

/// The space-separated tokens of an inbound line, once trimmed.
pub open spec fn line_tokens(line: Seq<char>) -> Seq<Seq<char>> {
    split_spaces(trim_ws(line))
}

/// The flag tokens of an inbound line: those after `rcv`, the id and the data.
pub open spec fn line_flags(line: Seq<char>) -> Seq<Seq<char>> {
    line_tokens(line).subrange(3, line_tokens(line).len() as int)
}

/// The first flag token that starts with `lower` or `upper`.
pub open spec fn flag_token(flags: Seq<Seq<char>>, lower: char, upper: char) -> Option<Seq<char>>
    decreases flags.len(),
{
    if flags.len() == 0 {
        None
    } else if flags[0].len() > 0 && (flags[0][0] == lower || flags[0][0] == upper) {
        Some(flags[0])
    } else {
        flag_token(flags.drop_first(), lower, upper)
    }
}

/// A boolean flag's value: `true` for its upper-case letter, `false` for its
/// lower-case letter, `None` when absent.
pub open spec fn flag_value(flags: Seq<Seq<char>>, lower: char, upper: char) -> Option<bool> {
    match flag_token(flags, lower, upper) {
        Some(t) => Some(t[0] == upper),
        None => None,
    }
}

/// The fault of a boolean flag token that carries characters after its letter.
pub open spec fn flag_fault(flags: Seq<Seq<char>>, lower: char, upper: char) -> Option<ParseFault> {
    match flag_token(flags, lower, upper) {
        Some(t) => if t.len() > 1 {
            Some(ParseFault::UnexpectedFlagData { flag: seq![lower], data: t.drop_first() })
        } else {
            None
        },
        None => None,
    }
}

/// The characters after the letter of the timestamp flag, when there are any.
pub open spec fn timestamp_digits(flags: Seq<Seq<char>>) -> Option<Seq<char>> {
    match flag_token(flags, 't', 'T') {
        Some(t) => if t.len() > 1 {
            Some(t.drop_first())
        } else {
            None
        },
        None => None,
    }
}

/// Why an inbound line is not a well-formed `rcv` line, checked in this order;
/// `None` when it is one. A payload of more than 64 bytes is refused, so that
/// every decoded frame is a valid one.
pub open spec fn decode_fault(line: Seq<char>) -> Option<ParseFault> {
    let t = trim_ws(line);
    let toks = split_spaces(t);
    let flags = line_flags(line);
    if t.len() == 0 {
        Some(ParseFault::UnexpectedEOL { expected: rcv_word() })
    } else if toks[0] != rcv_word() {
        Some(ParseFault::UnexpectedData { expected: rcv_word(), received: toks[0] })
    } else if toks.len() < 2 {
        Some(ParseFault::UnexpectedEOL { expected: seq!['i', 'd'] })
    } else if toks.len() < 3 {
        Some(ParseFault::UnexpectedEOL { expected: seq!['d', 'a', 't', 'a'] })
    } else if parse_unsigned(toks[1], 16, 0xffff) is None {
        Some(ParseFault::ID)
    } else if hex_decode(toks[2]) is None {
        Some(ParseFault::Data)
    } else if hex_decode(toks[2])->Some_0.len() > 64 {
        Some(ParseFault::DataLength(hex_decode(toks[2])->Some_0.len()))
    } else if flag_fault(flags, 'e', 'E') is Some {
        flag_fault(flags, 'e', 'E')
    } else if flag_fault(flags, 'b', 'B') is Some {
        flag_fault(flags, 'b', 'B')
    } else if flag_fault(flags, 'f', 'F') is Some {
        flag_fault(flags, 'f', 'F')
    } else if flag_fault(flags, 'r', 'R') is Some {
        flag_fault(flags, 'r', 'R')
    } else if timestamp_digits(flags) is Some && parse_unsigned(
        timestamp_digits(flags)->Some_0,
        10,
        0xffff_ffff,
    ) is None {
        Some(ParseFault::TimeStamp)
    } else {
        None
    }
}

/// The frame that a well-formed `rcv` line carries.
pub open spec fn decoded_frame(line: Seq<char>) -> FrameModel {
    let toks = line_tokens(line);
    let flags = line_flags(line);
    FrameModel {
        arbitration_id: parse_unsigned(toks[1], 16, 0xffff)->Some_0 as u16,
        data: hex_decode(toks[2])->Some_0,
        extended_id: flag_value(flags, 'e', 'E'),
        brs: flag_value(flags, 'b', 'B'),
        fd_can_frame: flag_value(flags, 'f', 'F'),
        remote_frame: flag_value(flags, 'r', 'R'),
        timestamp: match timestamp_digits(flags) {
            Some(d) => Some(parse_unsigned(d, 10, 0xffff_ffff)->Some_0 as u32),
            None => None,
        },
    }
}

/// The texts of a sequence of string slices.
pub open spec fn token_views(toks: Seq<&str>) -> Seq<Seq<char>> {
    toks.map_values(|t: &str| t@)
}

/// Whether `t` is exactly `w`.
fn is_word(t: &str, w: &str) -> (r: bool)
    ensures
        r == (t@ == w@),
{
    let n = t.unicode_len();
    if n != w.unicode_len() {
        return false;
    }
    let mut i: usize = 0;
    while i < n
        invariant
            n == t@.len() == w@.len(),
            i <= n,
            t@.take(i as int) == w@.take(i as int),
        decreases n - i,
    {
        if t.get_char(i) != w.get_char(i) {
            return false;
        }
        assert(t@.take(i as int + 1) =~= t@.take(i as int).push(t@[i as int]));
        assert(w@.take(i as int + 1) =~= w@.take(i as int).push(w@[i as int]));
        i += 1;
    }
    assert(t@ =~= t@.take(n as int));
    assert(w@ =~= w@.take(n as int));
    true
}

/// The first flag token (a token after the third) that starts with `lower`
/// or `upper`.
fn find_flag<'a>(toks: &Vec<&'a str>, lower: char, upper: char) -> (r: Option<&'a str>)
    requires
        toks@.len() >= 3,
    ensures
        match r {
            Some(t) => t@.len() > 0 && (t@[0] == lower || t@[0] == upper) && flag_token(token_views(toks@).subrange(3, toks@.len() as int), lower, upper)
                == Some(t@),
            None => flag_token(token_views(toks@).subrange(3, toks@.len() as int), lower, upper)
                is None,
        },
{
    let ghost views = token_views(toks@);
    let ghost n = toks@.len() as int;
    let mut i: usize = 3;
    while i < toks.len()
        invariant
            3 <= i <= toks@.len(),
            views == token_views(toks@),
            n == toks@.len(),
            flag_token(views.subrange(3, n), lower, upper) == flag_token(
                views.subrange(i as int, n),
                lower,
                upper,
            ),
        decreases toks.len() - i,
    {
        let t = toks[i];
        assert(views.subrange(i as int, n)[0] == t@);
        if !t.is_empty() {
            let c = t.get_char(0);
            if c == lower || c == upper {
                return Some(t);
            }
        }
        assert(views.subrange(i as int, n).drop_first() =~= views.subrange(i as int + 1, n));
        i += 1;
    }
    None
}

/// A boolean flag: its value, or the fault of trailing characters after its
/// letter.
fn flag_no_data(toks: &Vec<&str>, lower: char, upper: char, name: &str) -> (r: Result<
    Option<bool>,
    ParseError,
>)
    requires
        toks@.len() >= 3,
        name@ == seq![lower],
    ensures
        ({
            let flags = token_views(toks@).subrange(3, toks@.len() as int);
            match flag_fault(flags, lower, upper) {
                Some(f) => r is Err && r->Err_0@ == f,
                None => r == Ok::<Option<bool>, ParseError>(flag_value(flags, lower, upper)),
            }
        }),
{
    match find_flag(toks, lower, upper) {
        None => Ok(None),
        Some(t) => {
            let n = t.unicode_len();
            if n > 1 {
                let data = t.substring_char(1, n);
                assert(data@ =~= t@.drop_first());
                Err(ParseError::UnexpectedFlagData { flag: name.to_owned(), data: data.to_owned() })
            } else {
                Ok(Some(t.get_char(0) == upper))
            }
        },
    }
}

/// The timestamp flag: the value of its digits, or the fault of digits that
/// are not a decimal `u32`.
fn timestamp_flag(toks: &Vec<&str>) -> (r: Result<Option<u32>, ParseError>)
    requires
        toks@.len() >= 3,
    ensures
        ({
            let flags = token_views(toks@).subrange(3, toks@.len() as int);
            match timestamp_digits(flags) {
                None => r == Ok::<Option<u32>, ParseError>(None),
                Some(d) => match parse_unsigned(d, 10, 0xffff_ffff) {
                    Some(v) => r == Ok::<Option<u32>, ParseError>(Some(v as u32)),
                    None => r is Err && r->Err_0@ == ParseFault::TimeStamp,
                },
            }
        }),
{
    match find_flag(toks, 't', 'T') {
        None => Ok(None),
        Some(t) => {
            let n = t.unicode_len();
            if n > 1 {
                let digits = t.substring_char(1, n);
                assert(digits@ =~= t@.drop_first());
                match parse_dec_u32(digits) {
                    Ok(v) => Ok(Some(v)),
                    Err(e) => Err(ParseError::TimeStamp(e)),
                }
            } else {
                Ok(None)
            }
        },
    }
}

/// Decodes an inbound `rcv` line (see `decode_fault` and `decoded_frame`).
pub(crate) fn decode_text(line: &str) -> (r: Result<CanFdFrame, ParseError>)
    ensures
        match decode_fault(line@) {
            Some(f) => r is Err && r->Err_0@ == f,
            None => r is Ok && r->Ok_0@ == decoded_frame(line@),
        },
        r is Ok ==> r->Ok_0.data@.len() <= 64,
{
    let t = trim(line);
    let toks = split_tokens(t);
    let ghost views = token_views(toks@);
    assert(views =~= line_tokens(line@));
    proof {
        lemma_split_nonempty(t@);
        reveal_strlit("rcv");
        reveal_strlit("id");
        reveal_strlit("data");
        reveal_strlit("e");
        reveal_strlit("b");
        reveal_strlit("f");
        reveal_strlit("r");
        assert("rcv"@ =~= rcv_word());
        assert("id"@ =~= seq!['i', 'd']);
        assert("data"@ =~= seq!['d', 'a', 't', 'a']);
        assert("e"@ =~= seq!['e']);
        assert("b"@ =~= seq!['b']);
        assert("f"@ =~= seq!['f']);
        assert("r"@ =~= seq!['r']);
    }
    if t.is_empty() {
        return Err(ParseError::UnexpectedEOL { expected: "rcv".to_owned() });
    }
    if !is_word(toks[0], "rcv") {
        return Err(
            ParseError::UnexpectedData { expected: "rcv".to_owned(), received: toks[0].to_owned() },
        );
    }
    if toks.len() < 2 {
        return Err(ParseError::UnexpectedEOL { expected: "id".to_owned() });
    }
    if toks.len() < 3 {
        return Err(ParseError::UnexpectedEOL { expected: "data".to_owned() });
    }
    assert(views.subrange(3, views.len() as int) == line_flags(line@));
    let arbitration_id = match parse_hex_u16(toks[1]) {
        Ok(v) => v,
        Err(e) => return Err(ParseError::ID(e)),
    };
    let data = match decode(toks[2]) {
        Ok(v) => v,
        Err(e) => return Err(ParseError::Data(e)),
    };
    if data.len() > MAX_DATA_LEN {
        return Err(ParseError::DataLength(data.len()));
    }
    let extended_id = match flag_no_data(&toks, 'e', 'E', "e") {
        Ok(v) => v,
        Err(e) => return Err(e),
    };
    let brs = match flag_no_data(&toks, 'b', 'B', "b") {
        Ok(v) => v,
        Err(e) => return Err(e),
    };
    let fd_can_frame = match flag_no_data(&toks, 'f', 'F', "f") {
        Ok(v) => v,
        Err(e) => return Err(e),
    };
    let remote_frame = match flag_no_data(&toks, 'r', 'R', "r") {
        Ok(v) => v,
        Err(e) => return Err(e),
    };
    let timestamp = match timestamp_flag(&toks) {
        Ok(v) => v,
        Err(e) => return Err(e),
    };
    Ok(CanFdFrame { arbitration_id, data, extended_id, brs, fd_can_frame, remote_frame, timestamp })
}

impl CanFdFrame {
    /// Decodes an inbound line. The line is trimmed of surrounding white space
    /// and split on single spaces; it must read `rcv <hex id> <hex data>`,
    /// then flag tokens: `e`/`E`, `b`/`B`, `f`/`F`, `r`/`R` (upper case for
    /// true), and `t` followed by the decimal timestamp. The first token of each
    /// letter counts; absent flags are `None`. A payload of more than 64 bytes
    /// is refused with `DataLength`.
    pub fn decode(line: &FdCanUSBFrame) -> (r: Result<CanFdFrame, ParseError>)
        ensures
            match decode_fault(line@) {
                Some(f) => r is Err && r->Err_0@ == f,
                None => r is Ok && r->Ok_0@ == decoded_frame(line@),
            },
            r is Ok ==> r->Ok_0.data@.len() <= 64,
    {
        decode_text(line.0.as_str())
    }
}

} // verus!
