//! The state of an assembler session as plain mathematical values, and what a
//! finished session's output is.

use crate::bytes::{
    fits_signed, le_bytes, lemma_le_bytes_len, lemma_signed_value_of_le_bytes, signed_value,
    twos_complement,
};
use crate::riscv::encoding::{b_type, fits_branch, fits_jump, j_type, BRANCH, JAL};
use vstd::prelude::*;

verus! {

/// The width in bytes of the displacement of a short jump.
pub const SHORT: usize = 1;

/// The width in bytes of the displacement of a near jump.
pub const NEAR: usize = 4;

/// Why a jump cannot be patched.
#[derive(Debug, Copy, Clone, PartialEq, Eq, Structural)]
pub enum PatchError {
    /// The label of the jump was never defined.
    UnknownLabel,
    /// The label is farther away than the displacement of the jump can say.
    OutOfRange,
}

/// How a jump holds the distance to its label.
pub enum JumpKind {
    /// As a signed number of one or four bytes, counted from the first byte
    /// behind it: the jumps of x86-64.
    Relative,
    /// In the word of a RISC-V branch, counted from the branch.
    Branch { funct3: nat, rs1: nat, rs2: nat },
    /// In the word of a RISC-V `jal`, counted from the jump.
    Jal { rd: nat },
}

/// A place in the code that has to be written once the label of a jump is
/// known: the displacement of an x86-64 jump, or the word of a RISC-V one.
pub struct Jump {
    /// The name of the label that the jump goes to.
    pub label: Seq<char>,
    /// The offset of the first byte of the place.
    pub site: nat,
    /// The width of the place, in bytes.
    pub width: nat,
    /// How the place holds the distance.
    pub kind: JumpKind,
}

impl Jump {
    /// The offset of the first byte behind the place.
    pub open spec fn end(self) -> nat {
        self.site + self.width
    }

    /// The offset from which the processor counts the distance of the jump.
    pub open spec fn origin(self) -> nat {
        match self.kind {
            JumpKind::Relative => self.end(),
            _ => self.site,
        }
    }

    /// Whether the width and the fields of the jump are those of its kind.
    pub open spec fn well_shaped(self) -> bool {
        match self.kind {
            JumpKind::Relative => self.width == SHORT || self.width == NEAR,
            JumpKind::Branch { funct3, rs1, rs2 } => self.width == 4 && funct3 < 8 && rs1 < 32
                && rs2 < 32,
            JumpKind::Jal { rd } => self.width == 4 && rd < 32,
        }
    }

    /// Whether the byte at `offset` belongs to the place.
    pub open spec fn covers(self, offset: int) -> bool {
        self.site <= offset < self.end()
    }

    /// The word of a RISC-V jump over the given distance.
    pub open spec fn word(self, distance: int) -> nat {
        match self.kind {
            JumpKind::Branch { funct3, rs1, rs2 } => b_type(
                distance,
                rs2,
                rs1,
                funct3,
                BRANCH as nat,
            ),
            JumpKind::Jal { rd } => j_type(distance, rd, JAL as nat),
            JumpKind::Relative => 0,
        }
    }

    /// Whether the jump can hold the given distance.
    pub open spec fn reaches(self, distance: int) -> bool {
        match self.kind {
            JumpKind::Relative => fits_signed(distance, self.width),
            JumpKind::Branch { .. } => fits_branch(distance),
            JumpKind::Jal { .. } => fits_jump(distance),
        }
    }

    /// The bytes that the place holds once it is patched with the given
    /// distance: the distance in two's complement, or the word of the jump,
    /// least significant byte first.
    pub open spec fn holds(self, distance: int) -> Seq<u8> {
        match self.kind {
            JumpKind::Relative => le_bytes(twos_complement(distance, self.width), self.width),
            _ => le_bytes(self.word(distance), 4),
        }
    }
}

/// An assembler session: the code emitted so far, the labels defined so far,
/// the jumps that wait for their displacement, and the constants added.
pub struct Session {
    /// The code emitted so far.
    pub code: Seq<u8>,
    /// The offset that each label stands for.
    pub labels: Map<Seq<char>, nat>,
    /// The jumps emitted so far, in the order of their emission.
    pub jumps: Seq<Jump>,
    /// The constant blobs added so far.
    pub constants: Seq<Seq<u8>>,
}

impl Session {
    /// The session in which nothing has happened yet.
    pub open spec fn empty() -> Session {
        Session {
            code: Seq::empty(),
            labels: Map::empty(),
            jumps: Seq::empty(),
            constants: Seq::empty(),
        }
    }

    /// The session after `bytes` were appended to the code.
    pub open spec fn emit(self, bytes: Seq<u8>) -> Session {
        Session { code: self.code + bytes, ..self }
    }

    /// The session after `label` was bound to the end of the code. A label
    /// that is bound again stands for the later place.
    pub open spec fn define(self, label: Seq<char>) -> Session {
        Session { labels: self.labels.insert(label, self.code.len()), ..self }
    }

    /// The session after a jump to `label` was emitted: the opcode, then a
    /// displacement of `width` zero bytes, which is recorded for patching.
    pub open spec fn jump(self, opcode: Seq<u8>, label: Seq<char>, width: nat) -> Session {
        Session {
            code: self.code + opcode + Seq::new(width, |i: int| 0u8),
            jumps: self.jumps.push(
                Jump {
                    label,
                    site: self.code.len() + opcode.len(),
                    width,
                    kind: JumpKind::Relative,
                },
            ),
            ..self
        }
    }

    /// The session after a RISC-V branch or `jal` to `label` was emitted: its
    /// word with the distance zero, which is recorded for patching.
    pub open spec fn jump_word(self, label: Seq<char>, kind: JumpKind) -> Session {
        let jump = Jump { label, site: self.code.len(), width: 4, kind };
        Session {
            code: self.code + le_bytes(jump.word(0), 4),
            jumps: self.jumps.push(jump),
            ..self
        }
    }

    /// The session after a constant blob was added.
    pub open spec fn add_constant(self, constant: Seq<u8>) -> Session {
        Session { constants: self.constants.push(constant), ..self }
    }

    /// What holds of every session that was built from the empty one: each
    /// recorded place has the shape of its kind and lies within the code, and
    /// the places follow each other without overlap.
    pub open spec fn wf(self) -> bool {
        &&& forall|i: int|
            0 <= i < self.jumps.len() ==> {
                &&& (#[trigger] self.jumps[i]).well_shaped()
                &&& self.jumps[i].end() <= self.code.len()
            }
        &&& forall|i: int, j: int|
            0 <= i < j < self.jumps.len() ==> (#[trigger] self.jumps[i]).end()
                <= (#[trigger] self.jumps[j]).site
    }

    /// The empty session is well formed.
    pub proof fn lemma_empty_is_wf()
        ensures
            Session::empty().wf(),
    {
    }

    /// Emitting bytes keeps a session well formed.
    pub proof fn lemma_emit_keeps_wf(self, bytes: Seq<u8>)
        requires
            self.wf(),
        ensures
            self.emit(bytes).wf(),
    {
        let next = self.emit(bytes);
        assert(next.code.len() == self.code.len() + bytes.len());
        assert forall|i: int| 0 <= i < next.jumps.len() implies {
            &&& (#[trigger] next.jumps[i]).well_shaped()
            &&& next.jumps[i].end() <= next.code.len()
        } by {
            assert(self.jumps[i].end() <= self.code.len());
        }
    }

    /// Defining a label keeps a session well formed.
    pub proof fn lemma_define_keeps_wf(self, label: Seq<char>)
        requires
            self.wf(),
        ensures
            self.define(label).wf(),
    {
        let next = self.define(label);
        assert forall|i: int| 0 <= i < next.jumps.len() implies {
            &&& (#[trigger] next.jumps[i]).well_shaped()
            &&& next.jumps[i].end() <= next.code.len()
        } by {
            assert(self.jumps[i].end() <= self.code.len());
        }
    }

    /// Adding a constant keeps a session well formed.
    pub proof fn lemma_add_constant_keeps_wf(self, constant: Seq<u8>)
        requires
            self.wf(),
        ensures
            self.add_constant(constant).wf(),
    {
        let next = self.add_constant(constant);
        assert forall|i: int| 0 <= i < next.jumps.len() implies {
            &&& (#[trigger] next.jumps[i]).well_shaped()
            &&& next.jumps[i].end() <= next.code.len()
        } by {
            assert(self.jumps[i].end() <= self.code.len());
        }
    }

    /// Emitting a short or a near jump keeps a session well formed.
    pub proof fn lemma_jump_keeps_wf(self, opcode: Seq<u8>, label: Seq<char>, width: nat)
        requires
            self.wf(),
            width == SHORT || width == NEAR,
        ensures
            self.jump(opcode, label, width).wf(),
    {
        let next = self.jump(opcode, label, width);
        let last = self.jumps.len() as int;
        assert(next.code.len() == self.code.len() + opcode.len() + width);
        assert forall|i: int| 0 <= i < next.jumps.len() implies {
            &&& (#[trigger] next.jumps[i]).well_shaped()
            &&& next.jumps[i].end() <= next.code.len()
        } by {
            if i < last {
                assert(next.jumps[i] == self.jumps[i]);
                assert(self.jumps[i].end() <= self.code.len());
            }
        }
        assert forall|i: int, j: int| 0 <= i < j < next.jumps.len() implies (
        #[trigger] next.jumps[i]).end() <= (#[trigger] next.jumps[j]).site by {
            assert(next.jumps[i] == self.jumps[i]);
            assert(self.jumps[i].end() <= self.code.len());
            if j < last {
                assert(next.jumps[j] == self.jumps[j]);
            }
        }
    }

    /// Emitting a RISC-V jump keeps a session well formed.
    pub proof fn lemma_jump_word_keeps_wf(self, label: Seq<char>, kind: JumpKind)
        requires
            self.wf(),
            !(kind is Relative),
            (Jump { label, site: self.code.len(), width: 4, kind }).well_shaped(),
        ensures
            self.jump_word(label, kind).wf(),
    {
        let next = self.jump_word(label, kind);
        let last = self.jumps.len() as int;
        let jump = Jump { label, site: self.code.len(), width: 4, kind };
        lemma_le_bytes_len(jump.word(0), 4);
        assert(next.code.len() == self.code.len() + 4);
        assert forall|i: int| 0 <= i < next.jumps.len() implies {
            &&& (#[trigger] next.jumps[i]).well_shaped()
            &&& next.jumps[i].end() <= next.code.len()
        } by {
            if i < last {
                assert(next.jumps[i] == self.jumps[i]);
                assert(self.jumps[i].end() <= self.code.len());
            }
        }
        assert forall|i: int, j: int| 0 <= i < j < next.jumps.len() implies (
        #[trigger] next.jumps[i]).end() <= (#[trigger] next.jumps[j]).site by {
            assert(next.jumps[i] == self.jumps[i]);
            assert(self.jumps[i].end() <= self.code.len());
            if j < last {
                assert(next.jumps[j] == self.jumps[j]);
            }
        }
    }

    /// The distance that the jump has to cover: from its origin to its
    /// label.
    pub open spec fn distance(self, jump: Jump) -> int {
        self.labels[jump.label] - jump.origin()
    }

    /// Whether the jump can be patched: its label is defined, and the jump
    /// can hold the distance to it.
    pub open spec fn resolves(self, jump: Jump) -> bool {
        &&& self.labels.dom().contains(jump.label)
        &&& jump.reaches(self.distance(jump))
    }

    /// Whether every jump of the session can be patched.
    pub open spec fn resolvable(self) -> bool {
        forall|i: int| 0 <= i < self.jumps.len() ==> self.resolves(#[trigger] self.jumps[i])
    }

    /// Why the jump cannot be patched, if it cannot.
    pub open spec fn failure_of(self, jump: Jump) -> Option<PatchError> {
        if !self.labels.dom().contains(jump.label) {
            Some(PatchError::UnknownLabel)
        } else if !jump.reaches(self.distance(jump)) {
            Some(PatchError::OutOfRange)
        } else {
            None
        }
    }

    /// Why the first of the first `n` jumps that cannot be patched cannot, if
    /// there is one.
    pub open spec fn failure_within(self, n: nat) -> Option<PatchError>
        decreases n,
    {
        if n == 0 {
            None
        } else {
            match self.failure_within((n - 1) as nat) {
                Some(e) => Some(e),
                None => self.failure_of(self.jumps[n - 1]),
            }
        }
    }

    /// Why the first jump that cannot be patched cannot, if there is one.
    pub open spec fn failure(self) -> Option<PatchError> {
        self.failure_within(self.jumps.len())
    }

    /// A failure among the first jumps is the failure of the session.
    pub proof fn lemma_failure_within_grows(self, n: nat, m: nat)
        requires
            n < m,
            self.failure_within(n) is None,
            self.failure_of(self.jumps[n as int]) is Some,
        ensures
            self.failure_within(m) == self.failure_of(self.jumps[n as int]),
        decreases m,
    {
        if m > n + 1 {
            self.lemma_failure_within_grows(n, (m - 1) as nat);
        }
    }

    /// No jump among the first `n` fails exactly when each of them can be
    /// patched.
    pub proof fn lemma_failure_within_none(self, n: nat)
        ensures
            self.failure_within(n) is None <==> forall|i: int|
                0 <= i < n ==> self.resolves(#[trigger] self.jumps[i]),
        decreases n,
    {
        if n > 0 {
            self.lemma_failure_within_none((n - 1) as nat);
            if self.failure_within(n) is None {
                assert forall|i: int| 0 <= i < n implies self.resolves(
                    #[trigger] self.jumps[i],
                ) by {
                    if i == n - 1 {
                        assert(self.failure_of(self.jumps[n - 1]) is None);
                    }
                }
            } else {
                if self.failure_within((n - 1) as nat) is None {
                    assert(!self.resolves(self.jumps[n - 1]));
                }
            }
        }
    }

    /// A session has no failure exactly when it is resolvable.
    pub proof fn lemma_no_failure_is_resolvable(self)
        ensures
            self.failure() is None <==> self.resolvable(),
    {
        self.lemma_failure_within_none(self.jumps.len());
    }

    /// The bytes that the place of the jump holds once it is patched.
    pub open spec fn patch(self, jump: Jump) -> Seq<u8> {
        jump.holds(self.distance(jump))
    }

    /// Whether `out` is the finished code of the session: the code as it was
    /// emitted, but that the place of each jump holds the distance to its
    /// label.
    pub open spec fn finishes_to(self, out: Seq<u8>) -> bool {
        &&& out.len() == self.code.len()
        &&& forall|i: int|
            0 <= i < self.jumps.len() ==> out.subrange(
                (#[trigger] self.jumps[i]).site as int,
                self.jumps[i].end() as int,
            ) == self.patch(self.jumps[i])
        &&& forall|k: int|
            0 <= k < out.len() && (forall|i: int|
                0 <= i < self.jumps.len() ==> !(#[trigger] self.jumps[i]).covers(k)) ==> out[k]
                == self.code[k]
    }

    /// A patched jump of x86-64 lands on its label: the displacement that
    /// stands in the finished code, read as a signed number and added to the
    /// offset of the first byte behind it, is the offset of the label. This
    /// holds of short and of near jumps, forward and backward.
    pub proof fn lemma_patched_jump_reaches_label(self, out: Seq<u8>, i: int)
        requires
            self.resolvable(),
            self.finishes_to(out),
            0 <= i < self.jumps.len(),
            self.jumps[i].kind is Relative,
        ensures
            self.jumps[i].end() + signed_value(
                out.subrange(self.jumps[i].site as int, self.jumps[i].end() as int),
            ) == self.labels[self.jumps[i].label],
    {
        let jump = self.jumps[i];
        assert(self.resolves(jump));
        lemma_signed_value_of_le_bytes(self.distance(jump), jump.width);
    }

    /// A session with a jump to a label that was never defined has a failure
    /// and is not resolvable, so that it cannot be finished.
    pub proof fn lemma_unknown_label_fails(self, i: int)
        requires
            0 <= i < self.jumps.len(),
            !self.labels.dom().contains(self.jumps[i].label),
        ensures
            self.failure() is Some,
            !self.resolvable(),
    {
        assert(!self.resolves(self.jumps[i]));
        self.lemma_no_failure_is_resolvable();
    }

    /// A session has one finished code and no other.
    pub proof fn lemma_finished_code_is_unique(self, a: Seq<u8>, b: Seq<u8>)
        requires
            self.wf(),
            self.finishes_to(a),
            self.finishes_to(b),
        ensures
            a == b,
    {
        assert forall|k: int| 0 <= k < a.len() implies a[k] == b[k] by {
            if exists|i: int| 0 <= i < self.jumps.len() && (#[trigger] self.jumps[i]).covers(k) {
                let i = choose|i: int|
                    0 <= i < self.jumps.len() && (#[trigger] self.jumps[i]).covers(k);
                let jump = self.jumps[i];
                let from = jump.site as int;
                let to = jump.end() as int;
                assert(0 <= from <= k < to <= a.len());
                assert(a.subrange(from, to) == b.subrange(from, to));
                assert(a[k] == a.subrange(from, to)[k - from]);
                assert(b[k] == b.subrange(from, to)[k - from]);
            } else {
                assert(forall|i: int|
                    0 <= i < self.jumps.len() ==> !(#[trigger] self.jumps[i]).covers(k));
            }
        }
        assert(a =~= b);
    }
}

} // verus!
