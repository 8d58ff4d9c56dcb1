use crate::crc::{crc16_fold, zero_bytes, CRC16_INIT};
use crate::elf2ble::{chunk_writes, logical_bytes, spec_commands, Cmd, ElfToBle};
use crate::image::{find_sec, Image, SectionView};
use vstd::prelude::*;

verus! {

/// The offset of a write command (zero for any other command).
pub open spec fn write_off(c: Cmd) -> int {
    match c {
        Cmd::Write { offset, data } => offset as int,
        _ => 0,
    }
}

/// The payload length of a write command (zero for any other command).
pub open spec fn write_len(c: Cmd) -> int {
    match c {
        Cmd::Write { offset, data } => data.len() as int,
        _ => 0,
    }
}

/// The buffer after one command lands on `buf`; only a write changes it.
pub open spec fn apply_cmd(buf: Seq<u8>, c: Cmd) -> Seq<u8> {
    match c {
        Cmd::Write { offset, data } => Seq::new(
            buf.len(),
            |i: int|
                if offset <= i && i < offset + data.len() {
                    data[i - offset]
                } else {
                    buf[i]
                },
        ),
        _ => buf,
    }
}

/// The buffer after every command of `cmds` lands on `buf`, in order.
pub open spec fn apply_cmds(buf: Seq<u8>, cmds: Seq<Cmd>) -> Seq<u8>
    decreases cmds.len(),
{
    if cmds.len() == 0 {
        buf
    } else {
        apply_cmds(apply_cmd(buf, cmds[0]), cmds.drop_first())
    }
}

/// `buf` with `bytes` layered over it from `base` on.
pub open spec fn splice(buf: Seq<u8>, base: int, bytes: Seq<u8>) -> Seq<u8> {
    Seq::new(
        buf.len(),
        |i: int|
            if base <= i && i < base + bytes.len() {
                bytes[i - base]
            } else {
                buf[i]
            },
    )
}

proof fn lemma_apply_cmds_append(buf: Seq<u8>, c1: Seq<Cmd>, c2: Seq<Cmd>)
    ensures
        apply_cmds(buf, c1 + c2) == apply_cmds(apply_cmds(buf, c1), c2),
    decreases c1.len(),
{
    if c1.len() == 0 {
        assert(c1 + c2 =~= c2);
    } else {
        assert((c1 + c2).drop_first() =~= c1.drop_first() + c2);
        assert((c1 + c2)[0] == c1[0]);
        lemma_apply_cmds_append(apply_cmd(buf, c1[0]), c1.drop_first(), c2);
    }
}

proof fn lemma_apply_chunk_writes(buf: Seq<u8>, bytes: Seq<u8>, base: int, cap: int)
    requires
        cap >= 1,
        0 <= base,
        base + bytes.len() <= buf.len(),
        buf.len() <= 0x10000,
    ensures
        apply_cmds(buf, chunk_writes(bytes, base, cap)) =~= splice(buf, base, bytes),
    decreases bytes.len(),
{
    let ws = chunk_writes(bytes, base, cap);
    if bytes.len() == 0 {
        assert(apply_cmds(buf, ws) =~= splice(buf, base, bytes));
    } else {
        let k = if bytes.len() <= cap {
            bytes.len() as int
        } else {
            cap
        };
        let w0 = Cmd::Write { offset: base as u16, data: bytes.take(k) };
        let rest = chunk_writes(bytes.skip(k), base + k, cap);
        assert(ws == seq![w0] + rest);
        assert(ws[0] == w0);
        assert(ws.drop_first() =~= rest);
        let buf1 = apply_cmd(buf, w0);
        assert(buf1 =~= splice(buf, base, bytes.take(k)));
        lemma_apply_chunk_writes(buf1, bytes.skip(k), base + k, cap);
        assert(splice(buf1, base + k, bytes.skip(k)) =~= splice(buf, base, bytes));
    }
}

proof fn lemma_chunk_writes_bounds(bytes: Seq<u8>, base: int, cap: int)
    requires
        cap >= 1,
        0 <= base,
        base + bytes.len() <= 0x10000,
    ensures
        ({
            let ws = chunk_writes(bytes, base, cap);
            &&& forall|i: int|
                0 <= i < ws.len() ==> (#[trigger] ws[i]) is Write && 1 <= write_len(ws[i]) <= cap
                    && base <= write_off(ws[i]) && write_off(ws[i]) + write_len(ws[i]) <= base
                    + bytes.len()
            &&& forall|i: int, j: int|
                0 <= i < j < ws.len() ==> write_off(#[trigger] ws[i]) + write_len(ws[i])
                    <= write_off(#[trigger] ws[j])
        }),
    decreases bytes.len(),
{
    let ws = chunk_writes(bytes, base, cap);
    if bytes.len() == 0 {
    } else {
        let k = if bytes.len() <= cap {
            bytes.len() as int
        } else {
            cap
        };
        let w0 = Cmd::Write { offset: base as u16, data: bytes.take(k) };
        let rest = chunk_writes(bytes.skip(k), base + k, cap);
        assert(ws == seq![w0] + rest);
        lemma_chunk_writes_bounds(bytes.skip(k), base + k, cap);
        assert(base <= 0xFFFF);
        assert(write_off(w0) == base && write_len(w0) == k);
        assert(forall|i: int| 0 <= i < rest.len() ==> ws[i + 1] == #[trigger] rest[i]);
        assert(forall|i: int|
            0 <= i < ws.len() ==> (#[trigger] ws[i]) is Write && 1 <= write_len(ws[i]) <= cap
                && base <= write_off(ws[i]) && write_off(ws[i]) + write_len(ws[i]) <= base
                + bytes.len()) by {
            assert(ws[0] == w0);
        }
        assert(forall|i: int, j: int|
            0 <= i < j < ws.len() ==> write_off(#[trigger] ws[i]) + write_len(ws[i]) <= write_off(
                #[trigger] ws[j],
            )) by {
            assert(forall|j: int|
                0 < j < ws.len() ==> base + k <= write_off(#[trigger] ws[j]));
        }
    }
}

/// The generated stream is exactly one `Start`, then writes only, then
/// exactly one `Commit`; no write payload exceeds `cap` bytes (the sink's
/// MTU less the three-byte instruction header); every write stays within
/// the combined offset space `[0, total)`; and the writes come in strictly
/// increasing, non-overlapping offset order.
pub proof fn lemma_stream_shape(
    data: Seq<u8>,
    text: Seq<u8>,
    text_off: int,
    total: int,
    cap: int,
)
    requires
        cap >= 1,
        data.len() <= text_off,
        0 <= text_off,
        text_off + text.len() <= total,
        total <= 0x10000,
    ensures
        ({
            let cmds = spec_commands(data, text, text_off, total, cap);
            &&& cmds.len() >= 2
            &&& cmds.first() == Cmd::Start
            &&& cmds.last() matches Cmd::Commit { crc }
            &&& forall|i: int| 0 < i < cmds.len() - 1 ==> (#[trigger] cmds[i]) is Write
            &&& forall|i: int|
                0 <= i < cmds.len() && (#[trigger] cmds[i]) is Write ==> 1 <= write_len(cmds[i])
                    <= cap && 0 <= write_off(cmds[i]) && write_off(cmds[i]) + write_len(cmds[i])
                    <= total
            &&& forall|i: int, j: int|
                0 <= i < j < cmds.len() && (#[trigger] cmds[i]) is Write && (#[trigger] cmds[j])
                    is Write ==> write_off(cmds[i]) + write_len(cmds[i]) <= write_off(cmds[j])
        }),
{
    let a = chunk_writes(data, 0, cap);
    let b = chunk_writes(text, text_off, cap);
    let commit = Cmd::Commit {
        crc: crc16_fold(CRC16_INIT, logical_bytes(data, text, text_off, total)),
    };
    let cmds = spec_commands(data, text, text_off, total, cap);
    lemma_chunk_writes_bounds(data, 0, cap);
    lemma_chunk_writes_bounds(text, text_off, cap);
    assert(cmds =~= seq![Cmd::Start] + a + b + seq![commit]);
    assert(cmds.len() == 2 + a.len() + b.len());
    assert(cmds.first() == Cmd::Start);
    assert(cmds.last() == commit);
    assert(forall|i: int| 0 <= i < a.len() ==> cmds[i + 1] == #[trigger] a[i]);
    assert(forall|i: int| 0 <= i < b.len() ==> cmds[i + 1 + a.len()] == #[trigger] b[i]);
    assert(forall|i: int| 0 < i < cmds.len() - 1 ==> (#[trigger] cmds[i]) is Write) by {
        assert(forall|i: int|
            0 < i < cmds.len() - 1 ==> (#[trigger] cmds[i]) == if i <= a.len() {
                a[i - 1]
            } else {
                b[i - 1 - a.len()]
            });
    }
    assert(forall|i: int, j: int|
        0 <= i < j < cmds.len() && (#[trigger] cmds[i]) is Write && (#[trigger] cmds[j]) is Write
            ==> write_off(cmds[i]) + write_len(cmds[i]) <= write_off(cmds[j])) by {
        assert(forall|i: int|
            0 <= i < cmds.len() && (#[trigger] cmds[i]) is Write && i <= a.len() ==> write_off(
                cmds[i],
            ) + write_len(cmds[i]) <= data.len());
        assert(forall|j: int|
            0 <= j < cmds.len() && (#[trigger] cmds[j]) is Write && j > a.len() ==> text_off
                <= write_off(cmds[j]));
    }
}

/// The checksum carried by the final `Commit` is exactly the checksum of
/// the bytes a target device holds after replaying every emitted write onto
/// a pre-zeroed buffer of the combined region: gap bytes that no write
/// covers count as zeroes, and every byte of `[0, total)` counts once.
pub proof fn lemma_commit_checksum_matches_writes(
    data: Seq<u8>,
    text: Seq<u8>,
    text_off: int,
    total: int,
    cap: int,
)
    requires
        cap >= 1,
        data.len() <= text_off,
        0 <= text_off,
        text_off + text.len() <= total,
        total <= 0x10000,
    ensures
        ({
            let cmds = spec_commands(data, text, text_off, total, cap);
            cmds.last() == Cmd::Commit {
                crc: crc16_fold(CRC16_INIT, apply_cmds(zero_bytes(total as nat), cmds)),
            }
        }),
{
    let zeros = zero_bytes(total as nat);
    let a = chunk_writes(data, 0, cap);
    let b = chunk_writes(text, text_off, cap);
    let commit = Cmd::Commit {
        crc: crc16_fold(CRC16_INIT, logical_bytes(data, text, text_off, total)),
    };
    let cmds = spec_commands(data, text, text_off, total, cap);
    assert(cmds =~= seq![Cmd::Start] + a + b + seq![commit]);
    assert(cmds.last() == commit);
    lemma_apply_cmds_append(zeros, seq![Cmd::Start], a);
    lemma_apply_cmds_append(zeros, seq![Cmd::Start] + a, b);
    lemma_apply_cmds_append(zeros, seq![Cmd::Start] + a + b, seq![commit]);
    assert(apply_cmds(zeros, seq![Cmd::Start]) == zeros) by {
        reveal_with_fuel(apply_cmds, 3);
        assert(seq![Cmd::Start][0] == Cmd::Start);
        assert(apply_cmd(zeros, Cmd::Start) == zeros);
        assert(seq![Cmd::Start].drop_first().len() == 0);
    }
    lemma_apply_chunk_writes(zeros, data, 0, cap);
    let buf1 = splice(zeros, 0, data);
    lemma_apply_chunk_writes(buf1, text, text_off, cap);
    let buf2 = splice(buf1, text_off, text);
    assert(apply_cmds(buf2, seq![commit]) == buf2) by {
        reveal_with_fuel(apply_cmds, 3);
        assert(seq![commit][0] == commit);
        assert(apply_cmd(buf2, commit) == buf2);
        assert(seq![commit].drop_first().len() == 0);
    }
    assert(cmds == (seq![Cmd::Start] + a + b) + seq![commit]);
    assert(apply_cmds(zeros, cmds) == buf2);
    assert(buf2 =~= logical_bytes(data, text, text_off, total));
}

/// Both stream laws, instantiated for the stream `generate` feeds its sink
/// on a validated image: the shape and ordering law, and the commit
/// checksum law, hold of `commands_for`.
pub proof fn lemma_generated_stream_laws(dev: ElfToBle, ss: Seq<SectionView>, mtu: int)
    requires
        dev.contiguous(),
        dev.validate_spec(ss) is Ok,
        forall|i: int| 0 <= i < ss.len() ==> (#[trigger] ss[i]).data.len() <= ss[i].size,
        mtu >= 4,
    ensures
        ({
            let cmds = dev.commands_for(ss, mtu);
            let total = dev.data_len + dev.text_len;
            &&& cmds.first() == Cmd::Start
            &&& cmds.last() matches Cmd::Commit { crc }
            &&& forall|i: int| 0 < i < cmds.len() - 1 ==> (#[trigger] cmds[i]) is Write
            &&& forall|i: int|
                0 <= i < cmds.len() && (#[trigger] cmds[i]) is Write ==> 1 <= write_len(cmds[i])
                    <= mtu - 3 && 0 <= write_off(cmds[i]) && write_off(cmds[i]) + write_len(
                    cmds[i],
                ) <= total
            &&& forall|i: int, j: int|
                0 <= i < j < cmds.len() && (#[trigger] cmds[i]) is Write && (#[trigger] cmds[j])
                    is Write ==> write_off(cmds[i]) + write_len(cmds[i]) <= write_off(cmds[j])
            &&& cmds.last() == Cmd::Commit {
                crc: crc16_fold(CRC16_INIT, apply_cmds(zero_bytes(total as nat), cmds)),
            }
        }),
{
    assert(dev.validate_data_spec(ss) is Ok);
    let d = find_sec(ss, ".data"@)->Some_0;
    let t = find_sec(ss, ".text"@)->Some_0;
    Image::lemma_find_sec_wf(ss, ".data"@);
    Image::lemma_find_sec_wf(ss, ".text"@);
    assert(d.data.len() <= dev.data_len);
    assert(t.data.len() <= dev.text_len);
    let text_off = dev.data_len as int;
    let total = dev.data_len + dev.text_len;
    lemma_stream_shape(d.data, t.data, text_off, total, mtu - 3);
    lemma_commit_checksum_matches_writes(d.data, t.data, text_off, total, mtu - 3);
}

} // verus!
