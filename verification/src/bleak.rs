use crate::elf2ble::{BleCommand, Cmd, OutputFormat, SinkError};
use vstd::prelude::*;
use vstd::string::StringExecFns;

verus! {

/// The fixed preamble of the replay script: UUIDs derived from the common
/// 128-bit base pattern, the connection target read from an external
/// parameter, and the opening of the literal command list.
pub const PRELUDE: &'static str = "
import asyncio
from bleak import BleakClient
import sys
import os

def gen_uuid(uuid):
    return f\"a277{uuid}-e035-13ae-4647-0e0437dd272a\"

ADDRESS = sys.argv[1]

STATUS_UUID = gen_uuid(\"3040\")
PROG_UUID = gen_uuid(\"3101\")
APP_INFO_UUID = gen_uuid(\"3102\")
APP_NAME_UUID = gen_uuid(\"3103\")
APP_PROVIDER_UUID = gen_uuid(\"3104\")

PROGRAM = [
";

/// The fixed postamble: connect, enable notifications, query device info,
/// then replay every command list entry in order with progress reporting.
pub const CONCLUSION: &'static str = "
]

async def main():
    def notify_callback(sender: int, data: bytearray):
        print(f\"{sender}: {data}\")

    print(\"Scanning for\", ADDRESS)
    async with BleakClient(ADDRESS) as client:
        print(\"Connected. Enabling notifications...\")
        await client.start_notify(STATUS_UUID, notify_callback)
        await client.start_notify(APP_NAME_UUID, notify_callback)
        await client.start_notify(APP_PROVIDER_UUID, notify_callback)
        await client.start_notify(APP_INFO_UUID, notify_callback)
        await asyncio.sleep(0.5)
        print(\"Requesting app info...\")
        await client.write_gatt_char(PROG_UUID, b\"\\x00\") # update info characteristics
        await asyncio.sleep(1.0)
        print(\"Beginning installation...\")
        for i, packet in enumerate(PROGRAM):
            print(f'{i/len(PROGRAM)*100}%')
            await client.write_gatt_char(PROG_UUID, bytearray(packet))
        await asyncio.sleep(1.0)

asyncio.run(main())
";

/// The lower-case hex digit for a value below 16.
pub open spec fn hex_char(n: u8) -> char {
    if n == 0 {
        '0'
    } else if n == 1 {
        '1'
    } else if n == 2 {
        '2'
    } else if n == 3 {
        '3'
    } else if n == 4 {
        '4'
    } else if n == 5 {
        '5'
    } else if n == 6 {
        '6'
    } else if n == 7 {
        '7'
    } else if n == 8 {
        '8'
    } else if n == 9 {
        '9'
    } else if n == 10 {
        'a'
    } else if n == 11 {
        'b'
    } else if n == 12 {
        'c'
    } else if n == 13 {
        'd'
    } else if n == 14 {
        'e'
    } else {
        'f'
    }
}

/// A byte rendered as a numeric literal: `0x` and two hex digits.
pub open spec fn hex_pair(b: u8) -> Seq<char> {
    seq!['0', 'x', hex_char(b / 16), hex_char(b % 16)]
}

/// A list element of the script: a byte literal and its separator.
pub open spec fn hex_tok(b: u8) -> Seq<char> {
    hex_pair(b) + seq![',', ' ']
}

/// The list elements for a run of bytes, in order.
pub open spec fn hex_toks(bs: Seq<u8>) -> Seq<char>
    decreases bs.len(),
{
    if bs.len() == 0 {
        Seq::empty()
    } else {
        hex_tok(bs[0]) + hex_toks(bs.drop_first())
    }
}

/// One entry of the script's literal command list, rendered exactly as the
/// script sink writes it: the same five-element opcode encoding as the wire
/// format, as readable numeric literals.
pub open spec fn entry_chars(c: Cmd) -> Seq<char> {
    match c {
        Cmd::Start => seq![' ', ' ', '[', '2', ']', ',', '\n'],
        Cmd::Write { offset, data } => seq![' ', ' ', '[', '3', ',', ' '] + hex_tok(
            (offset % 256) as u8,
        ) + hex_tok((offset / 256) as u8) + hex_toks(data) + seq![']', ',', '\n'],
        Cmd::Commit { crc } => seq![' ', ' ', '[', '4', ',', ' '] + hex_pair((crc % 256) as u8)
            + seq![',', ' '] + hex_pair((crc / 256) as u8) + seq![']', ','],
        Cmd::Run { crc } => seq![' ', ' ', '[', '5', ',', ' '] + hex_pair((crc % 256) as u8)
            + seq![',', ' '] + hex_pair((crc / 256) as u8) + seq![']', ','],
    }
}

/// The embedded literal list for a command sequence, in order.
pub open spec fn entries_chars(cs: Seq<Cmd>) -> Seq<char>
    decreases cs.len(),
{
    if cs.len() == 0 {
        Seq::empty()
    } else {
        entry_chars(cs[0]) + entries_chars(cs.drop_first())
    }
}

/// The whole script for a consumed command sequence. The preamble is
/// written lazily by the first command, so a sink that consumed nothing
/// holds the postamble alone.
pub open spec fn script_chars(cs: Seq<Cmd>) -> Seq<char> {
    if cs.len() == 0 {
        CONCLUSION@
    } else {
        PRELUDE@ + entries_chars(cs) + CONCLUSION@
    }
}

pub proof fn lemma_hex_toks_push(bs: Seq<u8>, b: u8)
    ensures
        hex_toks(bs.push(b)) == hex_toks(bs) + hex_tok(b),
    decreases bs.len(),
{
    if bs.len() == 0 {
        reveal_with_fuel(hex_toks, 3);
        assert(bs.push(b)[0] == b);
        assert(bs.push(b).drop_first() =~= Seq::<u8>::empty());
        assert(hex_toks(Seq::<u8>::empty()) == Seq::<char>::empty());
        assert(hex_toks(bs.push(b)) =~= hex_toks(bs) + hex_tok(b));
    } else {
        assert(bs.push(b)[0] == bs[0]);
        assert(bs.push(b).drop_first() =~= bs.drop_first().push(b));
        lemma_hex_toks_push(bs.drop_first(), b);
        assert(hex_tok(bs[0]) + (hex_toks(bs.drop_first()) + hex_tok(b)) =~= (hex_tok(bs[0])
            + hex_toks(bs.drop_first())) + hex_tok(b));
    }
}

pub proof fn lemma_entries_push(cs: Seq<Cmd>, c: Cmd)
    ensures
        entries_chars(cs.push(c)) == entries_chars(cs) + entry_chars(c),
    decreases cs.len(),
{
    if cs.len() == 0 {
        reveal_with_fuel(entries_chars, 3);
        assert(cs.push(c)[0] == c);
        assert(cs.push(c).drop_first() =~= Seq::<Cmd>::empty());
        assert(entries_chars(Seq::<Cmd>::empty()) == Seq::<char>::empty());
        assert(entries_chars(cs.push(c)) =~= entries_chars(cs) + entry_chars(c));
    } else {
        assert(cs.push(c)[0] == cs[0]);
        assert(cs.push(c).drop_first() =~= cs.drop_first().push(c));
        lemma_entries_push(cs.drop_first(), c);
        assert(entry_chars(cs[0]) + (entries_chars(cs.drop_first()) + entry_chars(c)) =~= (
        entry_chars(cs[0]) + entries_chars(cs.drop_first())) + entry_chars(c));
    }
}

/// The one-character string for a hex digit.
fn hex_digit_str(n: u8) -> (r: &'static str)
    requires
        n < 16,
    ensures
        r@ == seq![hex_char(n)],
{
    proof {
        reveal_strlit("0");
        reveal_strlit("1");
        reveal_strlit("2");
        reveal_strlit("3");
        reveal_strlit("4");
        reveal_strlit("5");
        reveal_strlit("6");
        reveal_strlit("7");
        reveal_strlit("8");
        reveal_strlit("9");
        reveal_strlit("a");
        reveal_strlit("b");
        reveal_strlit("c");
        reveal_strlit("d");
        reveal_strlit("e");
        reveal_strlit("f");
    }
    let r = if n == 0 {
        "0"
    } else if n == 1 {
        "1"
    } else if n == 2 {
        "2"
    } else if n == 3 {
        "3"
    } else if n == 4 {
        "4"
    } else if n == 5 {
        "5"
    } else if n == 6 {
        "6"
    } else if n == 7 {
        "7"
    } else if n == 8 {
        "8"
    } else if n == 9 {
        "9"
    } else if n == 10 {
        "a"
    } else if n == 11 {
        "b"
    } else if n == 12 {
        "c"
    } else if n == 13 {
        "d"
    } else if n == 14 {
        "e"
    } else {
        "f"
    };
    proof {
        assert(r@ =~= seq![hex_char(n)]);
    }
    r
}

/// Append `0x` and two hex digits for `b`.
fn append_hex_pair(out: &mut String, b: u8)
    ensures
        final(out)@ == old(out)@ + hex_pair(b),
{
    out.append("0x");
    out.append(hex_digit_str(b / 16));
    out.append(hex_digit_str(b % 16));
    proof {
        reveal_strlit("0x");
        assert(out@ =~= old(out)@ + hex_pair(b));
    }
}

/// Append one list element: a byte literal and its separator.
fn append_hex_tok(out: &mut String, b: u8)
    ensures
        final(out)@ == old(out)@ + hex_tok(b),
{
    append_hex_pair(out, b);
    out.append(", ");
    proof {
        reveal_strlit(", ");
        assert(out@ =~= old(out)@ + hex_tok(b));
    }
}

/// The script-generation sink: renders the command sequence as a replayable
/// host-side script, a fixed preamble (written lazily before the first
/// entry), one literal list entry per command, and a postamble that replays
/// the list. `finish` returns the whole script.
pub struct Bleak {
    out: String,
    prelude_written: bool,
    cmds: Ghost<Seq<Cmd>>,
}

impl Bleak {
    pub fn new() -> (r: Bleak)
        ensures
            r.inv(),
            r.consumed() == Seq::<Cmd>::empty(),
            r.mtu_spec() == 120,
    {
        Bleak { out: String::new(), prelude_written: false, cmds: Ghost(Seq::empty()) }
    }
}

impl OutputFormat for Bleak {
    type Error = SinkError;

    type Finish = String;

    closed spec fn inv(&self) -> bool {
        &&& self.cmds@.len() == 0 ==> self.out@ == Seq::<char>::empty() && !self.prelude_written
        &&& self.cmds@.len() > 0 ==> self.prelude_written && self.out@ == PRELUDE@
            + entries_chars(self.cmds@)
    }

    closed spec fn consumed(&self) -> Seq<Cmd> {
        self.cmds@
    }

    open spec fn mtu_spec(&self) -> usize {
        120
    }

    /// The finished output is the whole script for the consumed commands.
    open spec fn finish_rel(cmds: Seq<Cmd>, f: String) -> bool {
        f@ == script_chars(cmds)
    }

    fn mtu(&self) -> (r: usize) {
        120
    }

    fn write_cmd(&mut self, cmd: &BleCommand) -> (r: Result<(), SinkError>)
        ensures
            r is Ok,
    {
        if !self.prelude_written {
            self.prelude_written = true;
            self.out.append(PRELUDE);
            proof {
                assert(self.out@ =~= PRELUDE@ + entries_chars(self.cmds@));
            }
        }
        let ghost base = self.out@;
        match cmd {
            BleCommand::Start => {
                self.out.append("  [2],\n");
                proof {
                    reveal_strlit("  [2],\n");
                    assert(self.out@ =~= base + entry_chars(cmd@));
                }
            },
            BleCommand::Write { offset, data } => {
                self.out.append("  [3, ");
                append_hex_tok(&mut self.out, (*offset % 256) as u8);
                append_hex_tok(&mut self.out, (*offset / 256) as u8);
                let ghost head = self.out@;
                let mut i: usize = 0;
                proof {
                    assert(head + hex_toks(data@.take(0)) =~= head);
                }
                while i < data.len()
                    invariant
                        i <= data@.len(),
                        self.out@ == head + hex_toks(data@.take(i as int)),
                        self.prelude_written,
                        self.cmds == old(self).cmds,
                    decreases data@.len() - i,
                {
                    proof {
                        assert(data@.take(i + 1) =~= data@.take(i as int).push(data@[i as int]));
                        lemma_hex_toks_push(data@.take(i as int), data@[i as int]);
                        assert(head + (hex_toks(data@.take(i as int)) + hex_tok(data@[i as int]))
                            =~= (head + hex_toks(data@.take(i as int))) + hex_tok(
                            data@[i as int],
                        ));
                    }
                    append_hex_tok(&mut self.out, data[i]);
                    i = i + 1;
                }
                self.out.append("],\n");
                proof {
                    reveal_strlit("  [3, ");
                    reveal_strlit("],\n");
                    assert(data@.take(data@.len() as int) =~= data@);
                    assert(self.out@ =~= base + entry_chars(cmd@));
                }
            },
            BleCommand::Commit { crc } => {
                self.out.append("  [4, ");
                append_hex_pair(&mut self.out, (*crc % 256) as u8);
                self.out.append(", ");
                append_hex_pair(&mut self.out, (*crc / 256) as u8);
                self.out.append("],");
                proof {
                    reveal_strlit("  [4, ");
                    reveal_strlit(", ");
                    reveal_strlit("],");
                    assert(self.out@ =~= base + entry_chars(cmd@));
                }
            },
            BleCommand::Run { crc } => {
                self.out.append("  [5, ");
                append_hex_pair(&mut self.out, (*crc % 256) as u8);
                self.out.append(", ");
                append_hex_pair(&mut self.out, (*crc / 256) as u8);
                self.out.append("],");
                proof {
                    reveal_strlit("  [5, ");
                    reveal_strlit(", ");
                    reveal_strlit("],");
                    assert(self.out@ =~= base + entry_chars(cmd@));
                }
            },
        }
        proof {
            lemma_entries_push(old(self).cmds@, cmd@);
            if old(self).cmds@.len() == 0 {
                assert(base =~= PRELUDE@ + entries_chars(old(self).cmds@));
            }
            assert((PRELUDE@ + entries_chars(old(self).cmds@)) + entry_chars(cmd@) =~= PRELUDE@
                + entries_chars(old(self).cmds@.push(cmd@)));
        }
        self.cmds = Ghost(self.cmds@.push(cmd@));
        Ok(())
    }

    fn finish(self) -> (r: Result<String, SinkError>)
        ensures
            r is Ok,
    {
        let mut s = self;
        s.out.append(CONCLUSION);
        proof {
            if s.cmds@.len() == 0 {
                assert(s.out@ =~= script_chars(s.cmds@));
            } else {
                assert((PRELUDE@ + entries_chars(s.cmds@)) + CONCLUSION@ =~= PRELUDE@
                    + entries_chars(s.cmds@) + CONCLUSION@);
            }
        }
        Ok(s.out)
    }
}

/// The value of a lower-case hex digit character, if it is one.
pub open spec fn hex_val(c: char) -> Option<u8> {
    if c == '0' {
        Some(0u8)
    } else if c == '1' {
        Some(1u8)
    } else if c == '2' {
        Some(2u8)
    } else if c == '3' {
        Some(3u8)
    } else if c == '4' {
        Some(4u8)
    } else if c == '5' {
        Some(5u8)
    } else if c == '6' {
        Some(6u8)
    } else if c == '7' {
        Some(7u8)
    } else if c == '8' {
        Some(8u8)
    } else if c == '9' {
        Some(9u8)
    } else if c == 'a' {
        Some(10u8)
    } else if c == 'b' {
        Some(11u8)
    } else if c == 'c' {
        Some(12u8)
    } else if c == 'd' {
        Some(13u8)
    } else if c == 'e' {
        Some(14u8)
    } else if c == 'f' {
        Some(15u8)
    } else {
        None
    }
}

pub proof fn lemma_hex_char_val(n: u8)
    requires
        n < 16,
    ensures
        hex_val(hex_char(n)) == Some(n),
{
}

/// Parse one `0xHH` byte literal; the byte and what follows it.
pub open spec fn parse_hex_pair(s: Seq<char>) -> Option<(u8, Seq<char>)> {
    if s.len() >= 4 && s[0] == '0' && s[1] == 'x' && hex_val(s[2]) is Some && hex_val(s[3])
        is Some {
        Some((((hex_val(s[2])->Some_0 * 16 + hex_val(s[3])->Some_0) as u8), s.skip(4)))
    } else {
        None
    }
}

/// Parse byte literals each followed by `, `, up to the closing bracket
/// (which is left in the rest).
pub open spec fn parse_hex_toks(s: Seq<char>) -> Option<(Seq<u8>, Seq<char>)>
    decreases s.len(),
{
    if s.len() >= 1 && s[0] == ']' {
        Some((Seq::empty(), s))
    } else {
        match parse_hex_pair(s) {
            Some(pr) => {
                if pr.1.len() >= 2 && pr.1[0] == ',' && pr.1[1] == ' ' {
                    match parse_hex_toks(pr.1.skip(2)) {
                        Some(tr) => Some((seq![pr.0] + tr.0, tr.1)),
                        None => None,
                    }
                } else {
                    None
                }
            },
            None => None,
        }
    }
}

/// Parse one entry of the script's literal command list back into the
/// command it renders; the command and what follows the entry.
pub open spec fn parse_entry(s: Seq<char>) -> Option<(Cmd, Seq<char>)> {
    if s.len() >= 4 && s[0] == ' ' && s[1] == ' ' && s[2] == '[' {
        let body = s.skip(3);
        if body[0] == '2' {
            if body.len() >= 4 && body[1] == ']' && body[2] == ',' && body[3] == '\n' {
                Some((Cmd::Start, body.skip(4)))
            } else {
                None
            }
        } else if body[0] == '3' {
            if body.len() >= 3 && body[1] == ',' && body[2] == ' ' {
                match parse_hex_toks(body.skip(3)) {
                    Some(tr) => {
                        if tr.0.len() >= 2 && tr.1.len() >= 3 && tr.1[0] == ']' && tr.1[1] == ','
                            && tr.1[2] == '\n' {
                            Some(
                                (
                                    Cmd::Write {
                                        offset: (tr.0[0] + tr.0[1] * 256) as u16,
                                        data: tr.0.skip(2),
                                    },
                                    tr.1.skip(3),
                                ),
                            )
                        } else {
                            None
                        }
                    },
                    None => None,
                }
            } else {
                None
            }
        } else if body[0] == '4' || body[0] == '5' {
            if body.len() >= 3 && body[1] == ',' && body[2] == ' ' {
                match parse_hex_pair(body.skip(3)) {
                    Some(p1) => {
                        if p1.1.len() >= 2 && p1.1[0] == ',' && p1.1[1] == ' ' {
                            match parse_hex_pair(p1.1.skip(2)) {
                                Some(p2) => {
                                    if p2.1.len() >= 2 && p2.1[0] == ']' && p2.1[1] == ',' {
                                        if body[0] == '4' {
                                            Some(
                                                (
                                                    Cmd::Commit {
                                                        crc: (p1.0 + p2.0 * 256) as u16,
                                                    },
                                                    p2.1.skip(2),
                                                ),
                                            )
                                        } else {
                                            Some(
                                                (
                                                    Cmd::Run { crc: (p1.0 + p2.0 * 256) as u16 },
                                                    p2.1.skip(2),
                                                ),
                                            )
                                        }
                                    } else {
                                        None
                                    }
                                },
                                None => None,
                            }
                        } else {
                            None
                        }
                    },
                    None => None,
                }
            } else {
                None
            }
        } else {
            None
        }
    } else {
        None
    }
}

proof fn lemma_parse_hex_toks_rest(s: Seq<char>)
    ensures
        parse_hex_toks(s) matches Some(tr) ==> tr.1.len() <= s.len(),
    decreases s.len(),
{
    if s.len() >= 1 && s[0] == ']' {
    } else if parse_hex_pair(s) is Some {
        let pr = parse_hex_pair(s)->Some_0;
        if pr.1.len() >= 2 && pr.1[0] == ',' && pr.1[1] == ' ' {
            lemma_parse_hex_toks_rest(pr.1.skip(2));
        }
    }
}

proof fn lemma_parse_entry_rest(s: Seq<char>)
    ensures
        parse_entry(s) matches Some(cr) ==> cr.1.len() < s.len(),
{
    if s.len() >= 4 && s[0] == ' ' && s[1] == ' ' && s[2] == '[' {
        let body = s.skip(3);
        if body[0] == '3' && body.len() >= 3 && body[1] == ',' && body[2] == ' ' {
            lemma_parse_hex_toks_rest(body.skip(3));
        }
    }
}

/// The whole literal list is parsed entry by entry; an empty list parses to
/// the empty sequence.
pub open spec fn parse_entries(s: Seq<char>) -> Option<Seq<Cmd>>
    decreases s.len(),
    via parse_entries_dec
{
    if s.len() == 0 {
        Some(Seq::empty())
    } else {
        match parse_entry(s) {
            Some(cr) => match parse_entries(cr.1) {
                Some(cs) => Some(seq![cr.0] + cs),
                None => None,
            },
            None => None,
        }
    }
}

#[via_fn]
proof fn parse_entries_dec(s: Seq<char>) {
    lemma_parse_entry_rest(s);
}

proof fn lemma_hex_toks_append(a: Seq<u8>, b: Seq<u8>)
    ensures
        hex_toks(a + b) == hex_toks(a) + hex_toks(b),
    decreases a.len(),
{
    if a.len() == 0 {
        assert(a + b =~= b);
        assert(hex_toks(a) + hex_toks(b) =~= hex_toks(b));
    } else {
        assert((a + b)[0] == a[0]);
        assert((a + b).drop_first() =~= a.drop_first() + b);
        lemma_hex_toks_append(a.drop_first(), b);
        assert(hex_tok(a[0]) + (hex_toks(a.drop_first()) + hex_toks(b)) =~= (hex_tok(a[0])
            + hex_toks(a.drop_first())) + hex_toks(b));
    }
}

proof fn lemma_parse_hex_pair_of(b: u8, rest: Seq<char>)
    ensures
        parse_hex_pair(hex_pair(b) + rest) == Some((b, rest)),
{
    lemma_hex_char_val(b / 16);
    lemma_hex_char_val(b % 16);
    let s = hex_pair(b) + rest;
    assert(s[0] == '0' && s[1] == 'x');
    assert(s[2] == hex_char(b / 16) && s[3] == hex_char(b % 16));
    assert(s.skip(4) =~= rest);
    vstd::arithmetic::div_mod::lemma_fundamental_div_mod(b as int, 16);
    assert((b / 16) * 16 + (b % 16) == b);
}

proof fn lemma_parse_hex_toks_of(bs: Seq<u8>, t: Seq<char>)
    requires
        t.len() >= 1,
        t[0] == ']',
    ensures
        parse_hex_toks(hex_toks(bs) + t) == Some((bs, t)),
    decreases bs.len(),
{
    let s = hex_toks(bs) + t;
    if bs.len() == 0 {
        assert(s =~= t);
        assert(bs =~= Seq::<u8>::empty());
    } else {
        let b0 = bs[0];
        let inner = hex_toks(bs.drop_first()) + t;
        let r = seq![',', ' '] + inner;
        assert(s =~= hex_pair(b0) + r);
        lemma_parse_hex_pair_of(b0, r);
        assert(r[0] == ',' && r[1] == ' ');
        assert(r.skip(2) =~= inner);
        lemma_parse_hex_toks_of(bs.drop_first(), t);
        assert(s[0] == '0');
        assert(seq![b0] + bs.drop_first() =~= bs);
    }
}

proof fn lemma_parse_entry_of(c: Cmd, rest: Seq<char>)
    ensures
        parse_entry(entry_chars(c) + rest) == Some((c, rest)),
{
    let s = entry_chars(c) + rest;
    match c {
        Cmd::Start => {
            assert(s[0] == ' ' && s[1] == ' ' && s[2] == '[');
            let body = s.skip(3);
            assert(body =~= seq!['2', ']', ',', '\n'] + rest);
            assert(body.skip(4) =~= rest);
        },
        Cmd::Write { offset, data } => {
            let lo = (offset % 256) as u8;
            let hi = (offset / 256) as u8;
            let bs = seq![lo, hi] + data;
            let t = seq![']', ',', '\n'] + rest;
            assert(hex_toks(seq![lo, hi]) =~= hex_tok(lo) + hex_tok(hi)) by {
                reveal_with_fuel(hex_toks, 4);
                assert(seq![lo, hi][0] == lo);
                assert(seq![lo, hi].drop_first() =~= seq![hi]);
                assert(seq![hi].drop_first() =~= Seq::<u8>::empty());
                assert(hex_tok(lo) + (hex_tok(hi) + Seq::<char>::empty()) =~= hex_tok(lo)
                    + hex_tok(hi));
            }
            lemma_hex_toks_append(seq![lo, hi], data);
            assert(s =~= seq![' ', ' ', '[', '3', ',', ' '] + (hex_toks(bs) + t));
            assert(s[0] == ' ' && s[1] == ' ' && s[2] == '[');
            let body = s.skip(3);
            assert(body[0] == '3' && body[1] == ',' && body[2] == ' ');
            assert(body.skip(3) =~= hex_toks(bs) + t);
            lemma_parse_hex_toks_of(bs, t);
            assert(bs[0] == lo && bs[1] == hi);
            assert(t[0] == ']' && t[1] == ',' && t[2] == '\n');
            assert(t.skip(3) =~= rest);
            assert(0 <= offset % 256 < 256 && 0 <= offset / 256 < 256);
            vstd::arithmetic::div_mod::lemma_fundamental_div_mod(offset as int, 256);
            assert(lo + hi * 256 == offset);
            assert(bs.skip(2) =~= data);
        },
        Cmd::Commit { crc } => {
            lemma_parse_entry_of_tail(s, crc, rest);
        },
        Cmd::Run { crc } => {
            lemma_parse_entry_of_tail(s, crc, rest);
        },
    }
}

proof fn lemma_parse_entry_of_tail(s: Seq<char>, crc: u16, rest: Seq<char>)
    requires
        s == seq![' ', ' ', '[', '4', ',', ' '] + hex_pair((crc % 256) as u8) + seq![',', ' ']
            + hex_pair((crc / 256) as u8) + seq![']', ','] + rest || s == seq![
            ' ',
            ' ',
            '[',
            '5',
            ',',
            ' ',
        ] + hex_pair((crc % 256) as u8) + seq![',', ' '] + hex_pair((crc / 256) as u8) + seq![
            ']',
            ',',
        ] + rest,
    ensures
        s[3] == '4' ==> parse_entry(s) == Some((Cmd::Commit { crc }, rest)),
        s[3] == '5' ==> parse_entry(s) == Some((Cmd::Run { crc }, rest)),
{
    let lo = (crc % 256) as u8;
    let hi = (crc / 256) as u8;
    let r1 = seq![',', ' '] + (hex_pair(hi) + (seq![']', ','] + rest));
    assert(s[0] == ' ' && s[1] == ' ' && s[2] == '[');
    let body = s.skip(3);
    assert(body[1] == ',' && body[2] == ' ');
    assert(body.skip(3) =~= hex_pair(lo) + r1);
    lemma_parse_hex_pair_of(lo, r1);
    assert(r1[0] == ',' && r1[1] == ' ');
    assert(r1.skip(2) =~= hex_pair(hi) + (seq![']', ','] + rest));
    lemma_parse_hex_pair_of(hi, seq![']', ','] + rest);
    let r2 = seq![']', ','] + rest;
    assert(r2[0] == ']' && r2[1] == ',');
    assert(r2.skip(2) =~= rest);
    assert(0 <= crc % 256 < 256 && 0 <= crc / 256 < 256);
    vstd::arithmetic::div_mod::lemma_fundamental_div_mod(crc as int, 256);
    assert(lo + hi * 256 == crc);
}

/// Round trip: the literal command list embedded in a generated script
/// parses back to exactly the command sequence the sink consumed, opcode,
/// offset, payload bytes and checksum alike.
pub proof fn lemma_script_round_trip(cmds: Seq<Cmd>)
    ensures
        parse_entries(entries_chars(cmds)) == Some(cmds),
    decreases cmds.len(),
{
    if cmds.len() == 0 {
    } else {
        let c0 = cmds[0];
        let rest = entries_chars(cmds.drop_first());
        let s = entries_chars(cmds);
        assert(s == entry_chars(c0) + rest);
        lemma_parse_entry_of(c0, rest);
        lemma_parse_entry_rest(s);
        lemma_script_round_trip(cmds.drop_first());
        assert(seq![c0] + cmds.drop_first() =~= cmds);
    }
}

} // verus!
