//! The state of an assembler session, whatever the instruction set: code,
//! labels, and the jumps that are patched once every label is known.

use crate::bytes::{
    i32_bits, i8_bits, le_bytes, lemma_le_bytes_one, lemma_radix_values, twos_complement,
    write_u32_le,
};
use crate::emitter::Emitter;
use crate::riscv::encoding::{encode_b, encode_j, BRANCH, JAL};
use crate::session::{Jump, JumpKind, PatchError, Session, NEAR, SHORT};
use crate::table::Table;
use vstd::prelude::*;

verus! {

/// How a jump holds the distance to its label.
#[derive(Clone, Copy, Debug)]
pub enum EntryKind {
    /// As a signed number of one or four bytes, counted from the first byte
    /// behind it: the jumps of x86-64.
    Relative,
    /// In the word of a RISC-V branch, counted from the branch.
    Branch { funct3: u8, rs1: u8, rs2: u8 },
    /// In the word of a RISC-V `jal`, counted from the jump.
    Jal { rd: u8 },
}

impl EntryKind {
    /// The kind as plain numbers.
    pub open spec fn view(self) -> JumpKind {
        match self {
            EntryKind::Relative => JumpKind::Relative,
            EntryKind::Branch { funct3, rs1, rs2 } => JumpKind::Branch {
                funct3: funct3 as nat,
                rs1: rs1 as nat,
                rs2: rs2 as nat,
            },
            EntryKind::Jal { rd } => JumpKind::Jal { rd: rd as nat },
        }
    }
}

/// A jump that waits to be patched.
struct JumpEntry {
    label: String,
    site: usize,
    width: usize,
    kind: EntryKind,
}

impl JumpEntry {
    spec fn view(self) -> Jump {
        Jump {
            label: self.label@,
            site: self.site as nat,
            width: self.width as nat,
            kind: self.kind.view(),
        }
    }
}

/// The jumps that the entries stand for.
spec fn jumps_of(entries: Seq<JumpEntry>) -> Seq<Jump> {
    Seq::new(entries.len(), |i: int| entries[i].view())
}

/// The bytes of each blob.
spec fn blobs_of(constants: Seq<Vec<u8>>) -> Seq<Seq<u8>> {
    Seq::new(constants.len(), |i: int| constants[i]@)
}

/// The session that the parts of an assembler stand for.
spec fn session_of(
    constants: Seq<Vec<u8>>,
    labels: Map<Seq<char>, usize>,
    jumps: Seq<JumpEntry>,
    code: Seq<u8>,
) -> Session {
    Session {
        code,
        labels: labels.map_values(|offset: usize| offset as nat),
        jumps: jumps_of(jumps),
        constants: blobs_of(constants),
    }
}

proof fn lemma_jumps_of_push(entries: Seq<JumpEntry>, entry: JumpEntry)
    ensures
        jumps_of(entries.push(entry)) == jumps_of(entries).push(entry.view()),
{
    assert(jumps_of(entries.push(entry)) =~= jumps_of(entries).push(entry.view()));
}

proof fn lemma_blobs_of_push(constants: Seq<Vec<u8>>, constant: Vec<u8>)
    ensures
        blobs_of(constants.push(constant)) == blobs_of(constants).push(constant@),
{
    assert(blobs_of(constants.push(constant)) =~= blobs_of(constants).push(constant@));
}

/// The distance from `origin` to `target`, or `None` where it is not within
/// `limit` on either side.
fn signed_distance(target: usize, origin: usize, limit: u32) -> (r: Option<i32>)
    requires
        0 < limit <= 0x8000_0000,
    ensures
        r is Some <==> -limit <= target - origin < limit,
        r is Some ==> r->0 == target - origin,
{
    if target >= origin {
        let forward = target - origin;
        if forward >= limit as usize {
            None
        } else {
            Some(forward as i32)
        }
    } else {
        let backward = origin - target;
        if backward > limit as usize {
            None
        } else if backward == 0x8000_0000 {
            Some(i32::MIN)
        } else {
            Some(-(backward as i32))
        }
    }
}

/// The bytes that the place of a jump holds for the distance from its
/// origin to `target`, or `None` where the jump cannot hold that distance.
fn patch_bytes(jump: &JumpEntry, target: usize) -> (r: Option<Vec<u8>>)
    requires
        jump.view().well_shaped(),
        jump.view().end() <= usize::MAX,
    ensures
        r is Some <==> jump.view().reaches(target - jump.view().origin()),
        r is Some ==> r->0@ == jump.view().holds(target - jump.view().origin()),
{
    proof {
        lemma_radix_values();
    }
    let mut out: Vec<u8> = Vec::new();
    match jump.kind {
        EntryKind::Relative => {
            let origin = jump.site + jump.width;
            if jump.width == SHORT {
                match signed_distance(target, origin, 0x80) {
                    Some(distance) => {
                        let bits = i8_bits(distance as i8);
                        out.push(bits);
                        proof {
                            lemma_le_bytes_one(bits);
                        }
                    },
                    None => {
                        return None;
                    },
                }
            } else {
                match signed_distance(target, origin, 0x8000_0000) {
                    Some(distance) => write_u32_le(&mut out, i32_bits(distance)),
                    None => {
                        return None;
                    },
                }
            }
        },
        EntryKind::Branch { funct3, rs1, rs2 } => {
            match signed_distance(target, jump.site, 0x1000) {
                Some(distance) => {
                    if distance % 2 != 0 {
                        return None;
                    }
                    write_u32_le(&mut out, encode_b(distance, rs2, rs1, funct3, BRANCH));
                },
                None => {
                    return None;
                },
            }
        },
        EntryKind::Jal { rd } => {
            match signed_distance(target, jump.site, 0x10_0000) {
                Some(distance) => {
                    if distance % 2 != 0 {
                        return None;
                    }
                    write_u32_le(&mut out, encode_j(distance, rd, JAL));
                },
                None => {
                    return None;
                },
            }
        },
    }
    assert(out@ =~= jump.view().holds(target - jump.view().origin()));
    Some(out)
}

/// The state of an assembler session: the code, the labels, the jumps that
/// wait for their label, and the constants. Code and labels are added in any
/// order; `finish` patches the jumps and hands the code out.
pub struct Unit {
    constants: Vec<Vec<u8>>,
    labels: Table<usize>,
    jumps: Vec<JumpEntry>,
    emitter: Emitter,
}

impl View for Unit {
    type V = Session;

    closed spec fn view(&self) -> Session {
        session_of(self.constants@, self.labels@, self.jumps@, self.emitter@)
    }
}

impl Unit {
    #[verifier::type_invariant]
    spec fn well_formed(&self) -> bool {
        self@.wf()
    }

    /// A session in which nothing has happened yet.
    pub fn new() -> (unit: Self)
        ensures
            unit@ == Session::empty(),
    {
        let unit = Unit {
            constants: Vec::new(),
            labels: Table::new(),
            jumps: Vec::new(),
            emitter: Emitter::new(),
        };
        proof {
            assert(jumps_of(unit.jumps@) =~= Seq::<Jump>::empty());
            assert(blobs_of(unit.constants@) =~= Seq::<Seq<u8>>::empty());
            assert(unit.labels@.map_values(|offset: usize| offset as nat) =~= Map::<
                Seq<char>,
                nat,
            >::empty());
        }
        unit
    }

    /// Takes the session apart and leaves an empty one behind.
    fn take_parts(&mut self) -> (parts: (Vec<Vec<u8>>, Table<usize>, Vec<JumpEntry>, Emitter))
        ensures
            old(self)@ == session_of(parts.0@, parts.1@, parts.2@, parts.3@),
            old(self)@.wf(),
    {
        proof {
            use_type_invariant(&*self);
        }
        let mut taken = Unit::new();
        std::mem::swap(self, &mut taken);
        let Unit { constants, labels, jumps, emitter } = taken;
        (constants, labels, jumps, emitter)
    }

    /// Puts a session together.
    fn set_parts(
        &mut self,
        constants: Vec<Vec<u8>>,
        labels: Table<usize>,
        jumps: Vec<JumpEntry>,
        emitter: Emitter,
    )
        requires
            session_of(constants@, labels@, jumps@, emitter@).wf(),
        ensures
            final(self)@ == session_of(constants@, labels@, jumps@, emitter@),
    {
        *self = Unit { constants, labels, jumps, emitter };
    }

    /// The code as it stands, with no jump patched.
    pub fn code(self) -> (code: Vec<u8>)
        ensures
            code@ == self@.code,
    {
        self.emitter.code()
    }

    /// The number of bytes emitted so far.
    pub fn len(&self) -> (n: usize)
        ensures
            n == self@.code.len(),
    {
        self.emitter.len()
    }

    /// Appends bytes that were made elsewhere.
    pub fn append(&mut self, other: Vec<u8>)
        ensures
            final(self)@ == old(self)@.emit(other@),
    {
        let (constants, labels, jumps, mut emitter) = self.take_parts();
        emitter.append(other);
        proof {
            old(self)@.lemma_emit_keeps_wf(other@);
        }
        self.set_parts(constants, labels, jumps, emitter);
    }

    /// Adds a constant blob and returns its index.
    pub fn add_constant(&mut self, constant: Vec<u8>) -> (index: usize)
        ensures
            index == old(self)@.constants.len(),
            final(self)@ == old(self)@.add_constant(constant@),
    {
        let (mut constants, labels, jumps, emitter) = self.take_parts();
        let index = constants.len();
        proof {
            lemma_blobs_of_push(constants@, constant);
            old(self)@.lemma_add_constant_keeps_wf(constant@);
        }
        constants.push(constant);
        self.set_parts(constants, labels, jumps, emitter);
        index
    }

    /// Binds `label` to the end of the code emitted so far. A label that is
    /// bound again stands for the later place.
    pub fn label(&mut self, label: &str)
        ensures
            final(self)@ == old(self)@.define(label@),
    {
        let (constants, mut labels, jumps, emitter) = self.take_parts();
        proof {
            old(self)@.lemma_define_keeps_wf(label@);
        }
        labels.insert(label.to_owned(), emitter.len());
        assert(labels@.map_values(|offset: usize| offset as nat) =~= old(self)@.labels.insert(
            label@,
            emitter@.len(),
        ));
        self.set_parts(constants, labels, jumps, emitter);
    }

    /// Emits the opcode of a jump and a displacement of `width` zero bytes,
    /// and records the displacement for patching.
    pub fn jump(&mut self, opcode: Vec<u8>, label: &str, width: usize)
        requires
            width == SHORT || width == NEAR,
        ensures
            final(self)@ == old(self)@.jump(opcode@, label@, width as nat),
    {
        let (constants, labels, mut jumps, mut emitter) = self.take_parts();
        emitter.append(opcode);
        let site = emitter.len();
        if width == SHORT {
            emitter.emit_byte(0);
        } else {
            emitter.emit_u32(0);
            proof {
                reveal_with_fuel(le_bytes, 5);
            }
        }
        assert(emitter@ =~= old(self)@.code + opcode@ + Seq::new(width as nat, |i: int| 0u8));
        let entry = JumpEntry { label: label.to_owned(), site, width, kind: EntryKind::Relative };
        proof {
            lemma_jumps_of_push(jumps@, entry);
            old(self)@.lemma_jump_keeps_wf(opcode@, label@, width as nat);
        }
        jumps.push(entry);
        self.set_parts(constants, labels, jumps, emitter);
    }

    /// Emits the word of a RISC-V branch or `jal` with the distance zero,
    /// and records it for patching.
    pub fn jump_word(&mut self, label: &str, kind: EntryKind)
        requires
            !(kind is Relative),
            (Jump { label: label@, site: old(self)@.code.len(), width: 4, kind: kind.view() })
                .well_shaped(),
        ensures
            final(self)@ == old(self)@.jump_word(label@, kind.view()),
    {
        let (constants, labels, mut jumps, mut emitter) = self.take_parts();
        let site = emitter.len();
        let word = match kind {
            EntryKind::Branch { funct3, rs1, rs2 } => encode_b(0, rs2, rs1, funct3, BRANCH),
            EntryKind::Jal { rd } => encode_j(0, rd, JAL),
            EntryKind::Relative => 0,
        };
        emitter.emit_u32(word);
        let entry = JumpEntry { label: label.to_owned(), site, width: 4, kind };
        proof {
            lemma_jumps_of_push(jumps@, entry);
            old(self)@.lemma_jump_word_keeps_wf(label@, kind.view());
        }
        jumps.push(entry);
        self.set_parts(constants, labels, jumps, emitter);
    }

    /// Patches every jump with the distance to its label and hands the code
    /// out, or says why the first jump that cannot be patched cannot.
    pub fn try_finish(self) -> (r: Result<Vec<u8>, PatchError>)
        ensures
            self@.wf(),
            match r {
                Ok(code) => self@.resolvable() && self@.finishes_to(code@),
                Err(e) => self@.failure() == Some(e),
            },
    {
        proof {
            use_type_invariant(&self);
        }
        let ghost session = self@;
        let Unit { constants, labels, jumps, emitter } = self;
        let mut emitter = emitter;
        let total = emitter.len();
        let mut i: usize = 0;
        while i < jumps.len()
            invariant
                i <= jumps@.len(),
                total == session.code.len(),
                session == self@,
                session.wf(),
                session.jumps == jumps_of(jumps@),
                session.labels == labels@.map_values(|offset: usize| offset as nat),
                session.failure_within(i as nat) is None,
                emitter@.len() == session.code.len(),
                forall|j: int|
                    0 <= j < i ==> emitter@.subrange(
                        (#[trigger] session.jumps[j]).site as int,
                        session.jumps[j].end() as int,
                    ) == session.patch(session.jumps[j]),
                forall|k: int|
                    0 <= k < emitter@.len() && (forall|j: int|
                        0 <= j < i ==> !(#[trigger] session.jumps[j]).covers(k)) ==> emitter@[k]
                        == session.code[k],
            decreases jumps@.len() - i,
        {
            let ghost jump = session.jumps[i as int];
            let ghost before = emitter@;
            assert(jump == jumps@[i as int].view());
            assert(jump.end() <= session.code.len());
            let target = match labels.get(&jumps[i].label) {
                Some(target) => target,
                None => {
                    proof {
                        session.lemma_failure_within_grows(i as nat, jumps@.len());
                    }
                    return Err(PatchError::UnknownLabel);
                },
            };
            let bytes = match patch_bytes(&jumps[i], target) {
                Some(bytes) => bytes,
                None => {
                    proof {
                        session.lemma_failure_within_grows(i as nat, jumps@.len());
                    }
                    return Err(PatchError::OutOfRange);
                },
            };
            proof {
                crate::bytes::lemma_le_bytes_len(
                    twos_complement(session.distance(jump), jump.width),
                    jump.width,
                );
                crate::bytes::lemma_le_bytes_len(jump.word(session.distance(jump)), 4);
            }
            emitter.replace_bytes_at_offset(jumps[i].site, &bytes);
            proof {
                assert(emitter@.subrange(jump.site as int, jump.end() as int) =~= session.patch(
                    jump,
                ));
                assert forall|j: int| 0 <= j < i implies emitter@.subrange(
                    (#[trigger] session.jumps[j]).site as int,
                    session.jumps[j].end() as int,
                ) == session.patch(session.jumps[j]) by {
                    let earlier = session.jumps[j];
                    assert(earlier.end() <= jump.site);
                    assert(emitter@.subrange(earlier.site as int, earlier.end() as int)
                        =~= before.subrange(earlier.site as int, earlier.end() as int));
                }
                assert forall|k: int|
                    0 <= k < emitter@.len() && (forall|j: int|
                        0 <= j < i + 1 ==> !(#[trigger] session.jumps[j]).covers(
                            k,
                        )) implies emitter@[k] == session.code[k] by {
                    assert(!session.jumps[i as int].covers(k));
                    assert(forall|j: int| 0 <= j < i ==> !(#[trigger] session.jumps[j]).covers(k));
                }
            }
            i += 1;
        }
        proof {
            session.lemma_no_failure_is_resolvable();
        }
        Ok(emitter.code())
    }

    /// Patches every jump with the distance to its label and hands the code
    /// out. The session ends here.
    pub fn finish(self) -> (code: Vec<u8>)
        requires
            self@.resolvable(),
        ensures
            self@.wf(),
            self@.finishes_to(code@),
    {
        proof {
            self@.lemma_no_failure_is_resolvable();
        }
        match self.try_finish() {
            Ok(code) => code,
            Err(_) => unreached(),
        }
    }
}

} // verus!
