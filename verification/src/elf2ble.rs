use crate::crc::{
    crc16_fold, crc16_update, crc16_zero_fill, lemma_crc16_fold_append, zero_bytes, CRC16_INIT,
};
use crate::image::{find_sec, Image, SectionView};
use crate::le32;
use vstd::pervasive::unreached;
use vstd::prelude::*;
use vstd::slice::{slice_subrange, slice_to_vec};
use vstd::string::StringExecFns;

verus! {

/// The four content bytes that must open the `.data` section, read
/// little-endian: the application magic marker.
pub const APP_MAGIC: u32 = 0x0004_1198;

/// Which section a layout error is about.
#[derive(Clone, Copy, Debug, PartialEq, Eq, Structural)]
pub enum SectionKind {
    Text,
    Data,
    Bss,
}

/// Why a firmware image does not fit the device's declared flash geometry.
#[derive(Clone, Copy, Debug, PartialEq, Eq, Structural)]
pub enum LayoutError {
    /// A required section is absent.
    MissingSection { section: SectionKind },
    /// A section starts outside the region it belongs to; the region's
    /// base address is reported.
    IncorrectSectionLocation { section: SectionKind, expected_addr: u64 },
    /// A section runs past the end of its region; the region's length is
    /// reported as the bound.
    SectionTooLarge { section: SectionKind, max_len: u64 },
    /// The `.data` section does not open with the application magic marker.
    MissingMagicNumber,
}

/// The target device's flash geometry: a `data` region followed by a
/// `text` region, each with a base address and a byte length.
#[derive(Clone, Copy, Debug, PartialEq, Eq, Structural)]
pub struct ElfToBle {
    pub text_addr: u64,
    pub text_len: u64,
    pub data_addr: u64,
    pub data_len: u64,
}

impl ElfToBle {
    /// The region bounds stay within the address space.
    pub open spec fn wf(&self) -> bool {
        &&& self.data_addr + self.data_len <= u64::MAX
        &&& self.text_addr + self.text_len <= u64::MAX
    }

    /// The combined write offset space `[0, data_len + text_len)` is
    /// coherent: the `text` region follows the `data` region directly,
    /// and every offset fits the 16-bit offset field of a write command.
    pub open spec fn contiguous(&self) -> bool {
        &&& self.data_addr + self.data_len == self.text_addr
        &&& self.data_len + self.text_len <= 0x10000
    }

    /// The checks of `validate` past the `.text` and `.bss` steps.
    pub open spec fn validate_data_spec(self, ss: Seq<SectionView>) -> Result<(), LayoutError> {
        match find_sec(ss, ".data"@) {
            None => Err(LayoutError::MissingSection { section: SectionKind::Data }),
            Some(d) => {
                if d.addr < self.data_addr || d.addr > self.data_addr + self.data_len {
                    Err(LayoutError::IncorrectSectionLocation {
                        section: SectionKind::Data,
                        expected_addr: self.data_addr,
                    })
                } else if d.addr + d.size > self.data_addr + self.data_len {
                    Err(LayoutError::SectionTooLarge {
                        section: SectionKind::Data,
                        max_len: self.data_len,
                    })
                } else if d.data.len() < 4 {
                    Err(LayoutError::MissingMagicNumber)
                } else if le32(d.data[0], d.data[1], d.data[2], d.data[3]) != APP_MAGIC {
                    Err(LayoutError::MissingMagicNumber)
                } else {
                    Ok(())
                }
            },
        }
    }

    /// What `validate` decides, in order, short-circuiting on the first
    /// failure: `.text` present at exactly the configured address and no
    /// longer than the `text` region; `.bss`, when present, inside the
    /// `data` region; `.data` present, inside the `data` region, opening
    /// with the magic marker.
    pub open spec fn validate_spec(self, ss: Seq<SectionView>) -> Result<(), LayoutError> {
        match find_sec(ss, ".text"@) {
            None => Err(LayoutError::MissingSection { section: SectionKind::Text }),
            Some(t) => {
                if t.addr != self.text_addr {
                    Err(LayoutError::IncorrectSectionLocation {
                        section: SectionKind::Text,
                        expected_addr: self.text_addr,
                    })
                } else if t.size > self.text_len {
                    Err(LayoutError::SectionTooLarge {
                        section: SectionKind::Text,
                        max_len: self.text_len,
                    })
                } else {
                    match find_sec(ss, ".bss"@) {
                        Some(b) => {
                            if b.addr < self.data_addr || b.addr > self.data_addr
                                + self.data_len {
                                Err(LayoutError::IncorrectSectionLocation {
                                    section: SectionKind::Bss,
                                    expected_addr: self.data_addr,
                                })
                            } else if b.addr + b.size > self.data_addr + self.data_len {
                                Err(LayoutError::SectionTooLarge {
                                    section: SectionKind::Bss,
                                    max_len: self.data_len,
                                })
                            } else {
                                self.validate_data_spec(ss)
                            }
                        },
                        None => self.validate_data_spec(ss),
                    }
                }
            },
        }
    }

    /// Checks that the image's sections fit the declared flash geometry and
    /// that `.data` opens with the magic marker. Purely inspects the loaded
    /// image; a hard precondition gate before any delivery is attempted.
    pub fn validate(&self, image: &Image) -> (r: Result<(), LayoutError>)
        requires
            self.wf(),
        ensures
            r == self.validate_spec(image@),
    {
        let tname = String::from_str(".text");
        let t = match image.find_section(&tname) {
            None => {
                return Err(LayoutError::MissingSection { section: SectionKind::Text });
            },
            Some(t) => t,
        };
        if t.addr != self.text_addr {
            return Err(LayoutError::IncorrectSectionLocation {
                section: SectionKind::Text,
                expected_addr: self.text_addr,
            });
        }
        if t.size > self.text_len {
            return Err(LayoutError::SectionTooLarge {
                section: SectionKind::Text,
                max_len: self.text_len,
            });
        }
        let data_end: u64 = self.data_addr + self.data_len;
        let bname = String::from_str(".bss");
        match image.find_section(&bname) {
            Some(b) => {
                if b.addr < self.data_addr || b.addr > data_end {
                    return Err(LayoutError::IncorrectSectionLocation {
                        section: SectionKind::Bss,
                        expected_addr: self.data_addr,
                    });
                }
                if b.size > data_end - b.addr {
                    return Err(LayoutError::SectionTooLarge {
                        section: SectionKind::Bss,
                        max_len: self.data_len,
                    });
                }
            },
            None => {},
        }
        let dname = String::from_str(".data");
        let d = match image.find_section(&dname) {
            None => {
                return Err(LayoutError::MissingSection { section: SectionKind::Data });
            },
            Some(d) => d,
        };
        if d.addr < self.data_addr || d.addr > data_end {
            return Err(LayoutError::IncorrectSectionLocation {
                section: SectionKind::Data,
                expected_addr: self.data_addr,
            });
        }
        if d.size > data_end - d.addr {
            return Err(LayoutError::SectionTooLarge {
                section: SectionKind::Data,
                max_len: self.data_len,
            });
        }
        if d.data.len() < 4 {
            return Err(LayoutError::MissingMagicNumber);
        }
        let m = crate::read_le32(d.data[0], d.data[1], d.data[2], d.data[3]);
        if m != APP_MAGIC {
            return Err(LayoutError::MissingMagicNumber);
        }
        Ok(())
    }
}

/// One protocol command of the update transaction. A transaction is exactly
/// one `Start`, zero or more `Write`s in increasing, non-overlapping offset
/// order, and exactly one `Commit` (or `Run`, reserved for a mode that runs
/// without persisting; the encoder never emits it).
pub enum BleCommand {
    Start,
    Write { offset: u16, data: Vec<u8> },
    Commit { crc: u16 },
    Run { crc: u16 },
}

/// The mathematical value of a command.
pub enum Cmd {
    Start,
    Write { offset: u16, data: Seq<u8> },
    Commit { crc: u16 },
    Run { crc: u16 },
}

impl View for BleCommand {
    type V = Cmd;

    open spec fn view(&self) -> Cmd {
        match self {
            BleCommand::Start => Cmd::Start,
            BleCommand::Write { offset, data } => Cmd::Write { offset: *offset, data: data@ },
            BleCommand::Commit { crc } => Cmd::Commit { crc: *crc },
            BleCommand::Run { crc } => Cmd::Run { crc: *crc },
        }
    }
}

/// The fixed-format wire instruction for a command: an opcode byte, then
/// opcode-specific payload, multi-byte fields little-endian.
pub open spec fn wire_bytes(c: Cmd) -> Seq<u8> {
    match c {
        Cmd::Start => seq![2u8],
        Cmd::Write { offset, data } => seq![
            3u8,
            (offset % 256) as u8,
            (offset / 256) as u8,
        ] + data,
        Cmd::Commit { crc } => seq![4u8, (crc % 256) as u8, (crc / 256) as u8],
        Cmd::Run { crc } => seq![5u8, (crc % 256) as u8, (crc / 256) as u8],
    }
}

/// The writes that deliver `bytes` starting at offset `base`, in fixed-size
/// chunks of at most `cap` payload bytes each.
pub open spec fn chunk_writes(bytes: Seq<u8>, base: int, cap: int) -> Seq<Cmd>
    decreases bytes.len(),
{
    if bytes.len() == 0 || cap < 1 {
        Seq::empty()
    } else {
        let k = if bytes.len() <= cap {
            bytes.len() as int
        } else {
            cap
        };
        seq![Cmd::Write { offset: base as u16, data: bytes.take(k) }] + chunk_writes(
            bytes.skip(k),
            base + k,
            cap,
        )
    }
}

/// Every byte logically present in the combined write offset space
/// `[0, total)`: the `.data` content from offset 0, the `.text` content
/// from `text_off`, and zeroes in the gap and the trailing pad.
pub open spec fn logical_bytes(data: Seq<u8>, text: Seq<u8>, text_off: int, total: int) -> Seq<
    u8,
> {
    Seq::new(
        total as nat,
        |i: int|
            if i < data.len() {
                data[i]
            } else if text_off <= i && i < text_off + text.len() {
                text[i - text_off]
            } else {
                0u8
            },
    )
}

/// The full command sequence for an image whose `.data` content is `data`
/// and whose `.text` content is `text`: `Start`, the chunked writes of both
/// sections, and a `Commit` carrying the checksum over every logical byte.
pub open spec fn spec_commands(
    data: Seq<u8>,
    text: Seq<u8>,
    text_off: int,
    total: int,
    cap: int,
) -> Seq<Cmd> {
    seq![Cmd::Start] + chunk_writes(data, 0, cap) + chunk_writes(text, text_off, cap) + seq![
        Cmd::Commit {
            crc: crc16_fold(CRC16_INIT, logical_bytes(data, text, text_off, total)),
        },
    ]
}

/// A failure of the underlying output sink, propagated while rendering.
/// The in-memory sinks of this library never produce one.
#[derive(Clone, Copy, Debug, PartialEq, Eq, Structural)]
pub enum SinkError {
    WriteFailed,
}

/// A sink that consumes the command sequence in order and renders it; one
/// `finish` call closes it. Stateful and single-use.
pub trait OutputFormat: Sized {
    type Error;

    type Finish;

    /// The sink's internal consistency invariant.
    spec fn inv(&self) -> bool;

    /// The commands consumed so far, in order.
    spec fn consumed(&self) -> Seq<Cmd>;

    /// The byte budget per rendered write instruction.
    spec fn mtu_spec(&self) -> usize;

    /// How the value `finish` returns renders a consumed command sequence.
    spec fn finish_rel(cmds: Seq<Cmd>, f: Self::Finish) -> bool;

    fn mtu(&self) -> (r: usize)
        ensures
            r == self.mtu_spec(),
    ;

    fn write_cmd(&mut self, cmd: &BleCommand) -> (r: Result<(), Self::Error>)
        requires
            old(self).inv(),
        ensures
            r is Ok ==> final(self).inv() && final(self).consumed() == old(self).consumed().push(
                cmd@,
            ) && final(self).mtu_spec() == old(self).mtu_spec(),
    ;

    fn finish(self) -> (r: Result<Self::Finish, Self::Error>)
        requires
            self.inv(),
        ensures
            r matches Ok(f) ==> Self::finish_rel(self.consumed(), f),
    ;
}

/// Feed the chunked writes of `bytes`, starting at offset `base`, into the
/// sink, folding each chunk into the checksum accumulator.
fn emit_chunks<O: OutputFormat>(sink: &mut O, bytes: &Vec<u8>, base: usize, cap: usize, crc: u16)
    -> (r: Result<u16, O::Error>)
    requires
        old(sink).inv(),
        cap >= 1,
        base + bytes@.len() <= 0x10000,
    ensures
        r matches Ok(c) ==> final(sink).inv() && final(sink).consumed() == old(
            sink,
        ).consumed() + chunk_writes(bytes@, base as int, cap as int) && final(sink).mtu_spec()
            == old(sink).mtu_spec() && c == crc16_fold(crc, bytes@),
{
    let mut c: u16 = crc;
    let mut i: usize = 0;
    proof {
        assert(bytes@.skip(0) =~= bytes@);
        assert(bytes@.take(0) =~= Seq::<u8>::empty());
    }
    while i < bytes.len()
        invariant
            sink.inv(),
            cap >= 1,
            i <= bytes@.len(),
            base + bytes@.len() <= 0x10000,
            sink.consumed() + chunk_writes(bytes@.skip(i as int), base + i, cap as int) == old(
                sink,
            ).consumed() + chunk_writes(bytes@, base as int, cap as int),
            sink.mtu_spec() == old(sink).mtu_spec(),
            c == crc16_fold(crc, bytes@.take(i as int)),
        decreases bytes@.len() - i,
    {
        let remaining = bytes.len() - i;
        let k = if remaining < cap {
            remaining
        } else {
            cap
        };
        let chunk: Vec<u8> = slice_to_vec(slice_subrange(bytes.as_slice(), i, i + k));
        let c2 = crc16_update(c, &chunk);
        proof {
            assert(chunk@ =~= bytes@.skip(i as int).take(k as int));
            assert(bytes@.take((i + k) as int) =~= bytes@.take(i as int) + chunk@);
            lemma_crc16_fold_append(crc, bytes@.take(i as int), chunk@);
        }
        let ghost pre_consumed = sink.consumed();
        let cmd = BleCommand::Write { offset: (base + i) as u16, data: chunk };
        match sink.write_cmd(&cmd) {
            Ok(()) => {},
            Err(e) => {
                return Err(e);
            },
        }
        proof {
            let s_i = bytes@.skip(i as int);
            assert(s_i.skip(k as int) =~= bytes@.skip((i + k) as int));
            assert(sink.consumed() + chunk_writes(bytes@.skip((i + k) as int), base + i + k, cap as int)
                =~= pre_consumed + chunk_writes(s_i, base + i, cap as int));
        }
        c = c2;
        i = i + k;
    }
    proof {
        assert(bytes@.skip(i as int).len() == 0);
        assert(chunk_writes(bytes@.skip(i as int), base + i, cap as int) =~= Seq::<Cmd>::empty());
        assert(sink.consumed() + Seq::<Cmd>::empty() =~= sink.consumed());
        assert(bytes@.take(i as int) =~= bytes@);
    }
    Ok(c)
}

impl ElfToBle {
    /// The command sequence `generate` emits for a validated image through
    /// a sink with the given MTU.
    pub open spec fn commands_for(self, ss: Seq<SectionView>, mtu: int) -> Seq<Cmd> {
        let d = find_sec(ss, ".data"@)->Some_0;
        let t = find_sec(ss, ".text"@)->Some_0;
        spec_commands(
            d.data,
            t.data,
            self.data_len as int,
            self.data_len + self.text_len,
            mtu - 3,
        )
    }

    /// Walks the validated image and feeds the ordered command sequence to
    /// the sink: `Start`, the `.data` chunks from offset 0, the `.text`
    /// chunks from the start of the `text` region, a `Commit` whose
    /// checksum covers every byte of `[0, data_len + text_len)` (gaps as
    /// zeroes), then one `finish` call.
    pub fn generate<O: OutputFormat>(&self, image: &Image, sink: O) -> (r: Result<
        O::Finish,
        O::Error,
    >)
        requires
            self.wf(),
            self.contiguous(),
            image.wf(),
            self.validate_spec(image@) is Ok,
            sink.inv(),
            sink.consumed() == Seq::<Cmd>::empty(),
            sink.mtu_spec() >= 4,
        ensures
            r matches Ok(f) ==> O::finish_rel(
                self.commands_for(image@, sink.mtu_spec() as int),
                f,
            ),
    {
        let mut sink = sink;
        let mtu = sink.mtu();
        let cap = mtu - 3;
        proof {
            assert(self.validate_data_spec(image@) is Ok);
            assert(find_sec(image@, ".data"@) is Some);
            assert(find_sec(image@, ".text"@) is Some);
        }
        let dname = String::from_str(".data");
        let d = match image.find_section(&dname) {
            Some(d) => d,
            None => unreached(),
        };
        let tname = String::from_str(".text");
        let t = match image.find_section(&tname) {
            Some(t) => t,
            None => unreached(),
        };
        proof {
            image.lemma_found_wf(".data"@);
            image.lemma_found_wf(".text"@);
            assert(d@.data.len() <= self.data_len);
            assert(t@.data.len() <= self.text_len);
        }
        let text_off: usize = self.data_len as usize;
        let total: usize = (self.data_len + self.text_len) as usize;
        let ghost cmds = self.commands_for(image@, mtu as int);

        match sink.write_cmd(&BleCommand::Start) {
            Ok(()) => {},
            Err(e) => {
                return Err(e);
            },
        }
        let c1 = match emit_chunks(&mut sink, &d.data, 0, cap, CRC16_INIT) {
            Ok(c) => c,
            Err(e) => {
                return Err(e);
            },
        };
        let gap1: usize = text_off - d.data.len();
        let c2 = crc16_zero_fill(c1, gap1);
        let c3 = match emit_chunks(&mut sink, &t.data, text_off, cap, c2) {
            Ok(c) => c,
            Err(e) => {
                return Err(e);
            },
        };
        let gap2: usize = total - (text_off + t.data.len());
        let c4 = crc16_zero_fill(c3, gap2);
        proof {
            let db = d@.data;
            let tb = t@.data;
            let lb = logical_bytes(db, tb, text_off as int, total as int);
            let cc = db + zero_bytes(gap1 as nat) + tb + zero_bytes(gap2 as nat);
            assert(lb =~= cc);
            lemma_crc16_fold_append(CRC16_INIT, db, zero_bytes(gap1 as nat));
            lemma_crc16_fold_append(
                CRC16_INIT,
                db + zero_bytes(gap1 as nat),
                tb,
            );
            lemma_crc16_fold_append(
                CRC16_INIT,
                db + zero_bytes(gap1 as nat) + tb,
                zero_bytes(gap2 as nat),
            );
            assert(c4 == crc16_fold(CRC16_INIT, lb));
        }
        match sink.write_cmd(&BleCommand::Commit { crc: c4 }) {
            Ok(()) => {},
            Err(e) => {
                return Err(e);
            },
        }
        proof {
            let db = d@.data;
            let tb = t@.data;
            assert(sink.consumed() =~= seq![Cmd::Start] + chunk_writes(db, 0, cap as int)
                + chunk_writes(tb, text_off as int, cap as int) + seq![
                Cmd::Commit { crc: c4 },
            ]);
            assert(sink.consumed() =~= cmds);
        }
        sink.finish()
    }
}

} // verus!
