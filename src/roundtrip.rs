//! Laws of the frame codec: the case of the flag letters, and decoding the
//! echo of an encoded frame.
use vstd::prelude::*;
use crate::frames::{
    decode_fault, decoded_frame, encode_line, flag_text, flags_text, id_bytes, line_flags,
    padded_data, padded_len, rcv_word, send_prefix, flag_token, FrameModel, PAD_BYTE,
};
use crate::hexcode::{digit_value, hex_decode, hex_upper, upper_hex_digits};
use crate::text::{
    digits_value, is_white_space, lemma_split_nonempty, parse_unsigned, split_spaces,
    trim_end_ws, trim_start_ws, trim_ws, unsigned_digits,
};

verus! {

proof fn lemma_hex_digit(n: int)
    requires
        0 <= n < 16,
    ensures
        digit_value(upper_hex_digits()[n], 16) == Some(n as nat),
        upper_hex_digits()[n] != ' ',
        upper_hex_digits()[n] != '+',
        !is_white_space(upper_hex_digits()[n]),
{
    let d = upper_hex_digits();
    assert(d[0] == '0' && d[1] == '1' && d[2] == '2' && d[3] == '3' && d[4] == '4' && d[5] == '5'
        && d[6] == '6' && d[7] == '7' && d[8] == '8' && d[9] == '9' && d[10] == 'A' && d[11] == 'B'
        && d[12] == 'C' && d[13] == 'D' && d[14] == 'E' && d[15] == 'F');
    assert(n == 0 || n == 1 || n == 2 || n == 3 || n == 4 || n == 5 || n == 6 || n == 7 || n == 8
        || n == 9 || n == 10 || n == 11 || n == 12 || n == 13 || n == 14 || n == 15);
}

/// Every character of an upper-case hex string is a hex digit, neither a space
/// nor white space.
proof fn lemma_hex_upper_chars(b: Seq<u8>, i: int)
    requires
        0 <= i < hex_upper(b).len(),
    ensures
        hex_upper(b)[i] != ' ',
        !is_white_space(hex_upper(b)[i]),
        digit_value(hex_upper(b)[i], 16) is Some,
        i % 2 == 0 ==> digit_value(hex_upper(b)[i], 16) == Some((b[i / 2] / 16) as nat),
        i % 2 == 1 ==> digit_value(hex_upper(b)[i], 16) == Some((b[i / 2] % 16) as nat),
{
    if i % 2 == 0 {
        lemma_hex_digit(b[i / 2] as int / 16);
    } else {
        lemma_hex_digit(b[i / 2] as int % 16);
    }
}

/// Hex text decodes back to its bytes.
proof fn lemma_hex_round_trip(b: Seq<u8>)
    ensures
        hex_decode(hex_upper(b)) == Some(b),
{
    let h = hex_upper(b);
    assert forall|i: int| 0 <= i < h.len() implies digit_value(#[trigger] h[i], 16) is Some by {
        lemma_hex_upper_chars(b, i);
    }
    assert forall|i: int| 0 <= i < h.len() implies crate::hexcode::is_hex_digit(#[trigger] h[i]) by {
        lemma_hex_upper_chars(b, i);
    }
    let d = hex_decode(h)->Some_0;
    assert forall|i: int| 0 <= i < b.len() implies d[i] == b[i] by {
        lemma_hex_upper_chars(b, 2 * i);
        lemma_hex_upper_chars(b, 2 * i + 1);
        assert((2 * i) / 2 == i);
        assert((2 * i + 1) / 2 == i);
    }
    assert(d =~= b);
}

/// A string with no space is a single piece.
proof fn lemma_split_no_space(a: Seq<char>)
    requires
        forall|i: int| 0 <= i < a.len() ==> a[i] != ' ',
    ensures
        split_spaces(a) == seq![a],
    decreases a.len(),
{
    if a.len() > 0 {
        lemma_split_no_space(a.drop_last());
        assert(a.drop_last().push(a.last()) =~= a);
        assert(seq![a.drop_last()].update(0, a) =~= seq![a]);
    } else {
        assert(a =~= Seq::<char>::empty());
    }
}

/// Splitting at one space concatenates the pieces of either side.
proof fn lemma_split_concat(a: Seq<char>, b: Seq<char>)
    ensures
        split_spaces(a + seq![' '] + b) == split_spaces(a) + split_spaces(b),
    decreases b.len(),
{
    let c = a + seq![' '] + b;
    if b.len() == 0 {
        assert(c.drop_last() =~= a);
        assert(split_spaces(a).push(Seq::empty()) =~= split_spaces(a) + split_spaces(b));
    } else {
        lemma_split_concat(a, b.drop_last());
        lemma_split_nonempty(b.drop_last());
        assert(c.drop_last() =~= a + seq![' '] + b.drop_last());
        let sa = split_spaces(a);
        let sb = split_spaces(b.drop_last());
        if b.last() == ' ' {
            assert((sa + sb).push(Seq::empty()) =~= sa + sb.push(Seq::empty()));
        } else {
            assert((sa + sb).update((sa + sb).len() - 1, (sa + sb).last().push(b.last())) =~= sa
                + sb.update(sb.len() - 1, sb.last().push(b.last())));
        }
    }
}

/// `l` with its leading `can send` replaced by `rcv`: the line in which the
/// adapter would echo the frame of an outbound command.
pub open spec fn as_response(l: Seq<char>) -> Seq<char> {
    rcv_word() + l.subrange(8, l.len() as int)
}

proof fn lemma_id_digits(id: u16)
    ensures
        parse_unsigned(hex_upper(id_bytes(id)), 16, 0xffff) == Some(id as nat),
{
    let b = id_bytes(id);
    let h = hex_upper(b);
    assert(h.len() == 4);
    lemma_hex_upper_chars(b, 0);
    lemma_hex_upper_chars(b, 1);
    lemma_hex_upper_chars(b, 2);
    lemma_hex_upper_chars(b, 3);
    assert(unsigned_digits(h) == h);
    assert forall|i: int| 0 <= i < h.len() implies (#[trigger] digit_value(h[i], 16)) is Some by {
        lemma_hex_upper_chars(b, i);
    }
    let hi = (id / 256) as u8;
    let lo = (id % 256) as u8;
    assert(h.take(1).drop_last() =~= Seq::<char>::empty());
    assert(h.take(2).drop_last() =~= h.take(1));
    assert(h.take(3).drop_last() =~= h.take(2));
    assert(h.drop_last() =~= h.take(3));
    assert(b[0] == hi && b[1] == lo);
    assert(digits_value(Seq::<char>::empty(), 16) == 0);
    assert(h.take(1).last() == h[0]);
    assert(h.take(2).last() == h[1]);
    assert(h.take(3).last() == h[2]);
    assert(digits_value(h.take(1), 16) == (hi / 16) as nat);
    assert(digits_value(h.take(2), 16) == (hi / 16) as nat * 16 + (hi % 16) as nat);
    assert(digits_value(h.take(3), 16) == ((hi / 16) as nat * 16 + (hi % 16) as nat) * 16 + (lo
        / 16) as nat);
    assert(digits_value(h, 16) == (((hi / 16) as nat * 16 + (hi % 16) as nat) * 16 + (lo
        / 16) as nat) * 16 + (lo % 16) as nat);
    assert(digits_value(h, 16) == id as nat);
}

/// Decoding the `rcv` echo of a frame's `can send` command gives back its id
/// and its payload followed by the `0x50` padding (whose leading bytes are the
/// payload itself), with no flags and no timestamp. The payload must not be
/// empty: an echo with no data token ends after the id.
pub proof fn lemma_round_trip(f: FrameModel)
    requires
        0 < f.data.len() <= 64,
        f.extended_id is None,
        f.brs is None,
        f.fd_can_frame is None,
        f.remote_frame is None,
    ensures
        decode_fault(as_response(encode_line(f))) is None,
        decoded_frame(as_response(encode_line(f))) == (FrameModel {
            arbitration_id: f.arbitration_id,
            data: padded_data(f.data),
            extended_id: None,
            brs: None,
            fd_can_frame: None,
            remote_frame: None,
            timestamp: None,
        }),
        padded_data(f.data).take(f.data.len() as int) == f.data,
        padded_data(f.data).len() == padded_len(f.data.len()),
{
    let h = hex_upper(id_bytes(f.arbitration_id));
    let p = padded_data(f.data);
    let d = hex_upper(p);
    let line = encode_line(f);
    let resp = as_response(line);
    let t = rcv_word() + seq![' '] + h + seq![' '] + d;
    assert(flags_text(f) =~= Seq::<char>::empty());
    assert(resp =~= t + seq!['\n']);
    assert(d.len() > 0);
    lemma_hex_upper_chars(p, d.len() - 1);
    // trimming drops the newline alone
    assert(trim_start_ws(resp) == resp);
    assert(resp.drop_last() =~= t);
    assert(t.last() == d.last());
    assert(trim_end_ws(t) == t);
    assert(trim_end_ws(resp) == t);
    assert(trim_ws(resp) == t);
    // three tokens
    assert forall|i: int| 0 <= i < h.len() implies h[i] != ' ' by {
        lemma_hex_upper_chars(id_bytes(f.arbitration_id), i);
    }
    assert forall|i: int| 0 <= i < d.len() implies d[i] != ' ' by {
        lemma_hex_upper_chars(p, i);
    }
    assert(rcv_word()[0] != ' ' && rcv_word()[1] != ' ' && rcv_word()[2] != ' ');
    lemma_split_no_space(rcv_word());
    lemma_split_no_space(h);
    lemma_split_no_space(d);
    lemma_split_concat(h, d);
    assert(t =~= rcv_word() + seq![' '] + (h + seq![' '] + d));
    lemma_split_concat(rcv_word(), h + seq![' '] + d);
    let toks = split_spaces(t);
    assert(toks =~= seq![rcv_word(), h, d]);
    // the fields
    lemma_id_digits(f.arbitration_id);
    lemma_hex_round_trip(p);
    let flags = line_flags(resp);
    assert(flags =~= Seq::<Seq<char>>::empty());
    assert(flag_token(flags, 'e', 'E') is None);
    assert(flag_token(flags, 'b', 'B') is None);
    assert(flag_token(flags, 'f', 'F') is None);
    assert(flag_token(flags, 'r', 'R') is None);
    assert(flag_token(flags, 't', 'T') is None);
    assert(p.take(f.data.len() as int) =~= f.data);
}

/// The flags section of a `can send` line (what follows the data, before the
/// newline) carries each flag in the case of its value: with `brs` set it
/// starts with ` B`, with `brs` unset with ` b`, and with `brs` unspecified it
/// holds neither letter; `F`/`f` and `R`/`r` likewise follow `fd_can_frame`
/// and `remote_frame`.
pub proof fn lemma_flag_case(f: FrameModel)
    ensures
        ({
            let line = encode_line(f);
            let flags = flags_text(f);
            &&& line.subrange(
                line.len() - 1 - flags.len(),
                line.len() - 1,
            ) == flags
            &&& line.last() == '\n'
            &&& f.brs == Some(true) ==> flags.take(2) == seq![' ', 'B'] && !flags.contains('b')
            &&& f.brs == Some(false) ==> flags.take(2) == seq![' ', 'b'] && !flags.contains('B')
            &&& f.brs is None ==> !flags.contains('B') && !flags.contains('b')
            &&& f.fd_can_frame == Some(true) ==> flags.contains('F') && !flags.contains('f')
            &&& f.fd_can_frame == Some(false) ==> flags.contains('f') && !flags.contains('F')
            &&& f.fd_can_frame is None ==> !flags.contains('F') && !flags.contains('f')
            &&& f.remote_frame == Some(true) ==> flags.contains('R') && !flags.contains('r')
            &&& f.remote_frame == Some(false) ==> flags.contains('r') && !flags.contains('R')
            &&& f.remote_frame is None ==> !flags.contains('R') && !flags.contains('r')
        }),
{
    let line = encode_line(f);
    let flags = flags_text(f);
    let body = send_prefix() + hex_upper(id_bytes(f.arbitration_id)) + seq![' '] + hex_upper(
        padded_data(f.data),
    );
    assert(line =~= body + flags + seq!['\n']);
    assert(line.subrange(line.len() - 1 - flags.len(), line.len() - 1) =~= flags);
    let b = flag_text(f.brs, 'b', 'B');
    let fd = flag_text(f.fd_can_frame, 'f', 'F');
    let r = flag_text(f.remote_frame, 'r', 'R');
    assert(flags =~= b + fd + r);
    assert(flags.take(b.len() as int) =~= b);
    assert forall|c: char| #[trigger] flags.contains(c) <==> (b.contains(c) || fd.contains(c) || r.contains(c)) by {
        if flags.contains(c) {
            let i = choose|i: int| 0 <= i < flags.len() && flags[i] == c;
            if i < b.len() {
                assert(b[i] == c);
            } else if i < b.len() + fd.len() {
                assert(fd[i - b.len()] == c);
            } else {
                assert(r[i - b.len() - fd.len()] == c);
            }
        }
        if b.contains(c) {
            let i = choose|i: int| 0 <= i < b.len() && b[i] == c;
            assert(flags[i] == c);
        }
        if fd.contains(c) {
            let i = choose|i: int| 0 <= i < fd.len() && fd[i] == c;
            assert(flags[b.len() + i] == c);
        }
        if r.contains(c) {
            let i = choose|i: int| 0 <= i < r.len() && r[i] == c;
            assert(flags[b.len() + fd.len() + i] == c);
        }
    }
    if f.brs == Some(true) { assert(b[1] == 'B'); }
    if f.brs == Some(false) { assert(b[1] == 'b'); }
    if f.fd_can_frame == Some(true) { assert(fd[1] == 'F'); }
    if f.fd_can_frame == Some(false) { assert(fd[1] == 'f'); }
    if f.remote_frame == Some(true) { assert(r[1] == 'R'); }
    if f.remote_frame == Some(false) { assert(r[1] == 'r'); }
}

} // verus!
