//! The instruction wire format: its mathematical reading, the decoder and the encoder,
//! and the laws that tie them together.
use vstd::prelude::*;
use vstd::utf8::{
    decode_utf8, decode_utf8_encode_utf8, encode_utf8, encode_utf8_decode_utf8,
    encode_utf8_valid_utf8, valid_utf8,
};

use crate::error::ColabioError;
use crate::project::{milestones_view, Milestone, MilestoneView};

verus! {

/// The six instructions of the wire protocol.
///
/// Each one names, in its doc comment, the ordered accounts it expects.
#[derive(Debug)]
pub enum ColabioInstruction {
    /// Initialize a new project.
    ///
    /// Accounts expected:
    /// 0. `[signer]` Project creator
    /// 1. `[writable]` Project account, must be uninitialized
    /// 2. `[]` Rent sysvar
    /// 3. `[]` System program
    InitializeProject {
        title: String,
        description: String,
        goal_amount: u64,
        duration: u64,
        milestones: Vec<Milestone>,
    },
    /// Contribute funds to a project.
    ///
    /// Accounts expected:
    /// 0. `[signer]` Contributor
    /// 1. `[writable]` Project account
    /// 2. `[writable]` Contribution account, must be uninitialized
    /// 3. `[]` System program
    Contribute { amount: u64 },
    /// Validate a milestone.
    ///
    /// Accounts expected:
    /// 0. `[signer]` Validator
    /// 1. `[writable]` Project account
    /// 2. `[writable]` Validation account
    /// 3. `[]` System program
    ValidateMilestone { milestone_index: u8 },
    /// Release funds for a completed milestone.
    ///
    /// Accounts expected:
    /// 0. `[signer]` Project creator
    /// 1. `[writable]` Project account
    /// 2. `[]` System program
    ReleaseFunds { milestone_index: u8 },
    /// Cancel a project.
    ///
    /// Accounts expected:
    /// 0. `[signer]` Project creator
    /// 1. `[writable]` Project account
    /// 2. `[]` System program
    CancelProject {},
    /// Vote on a project.
    ///
    /// Accounts expected:
    /// 0. `[signer]` Voter
    /// 1. `[writable]` Project account
    /// 2. `[writable]` Vote account
    /// 3. `[]` System program
    Vote { approve: bool },
}

/// The mathematical value of a [`ColabioInstruction`].
pub enum InstructionView {
    InitializeProject {
        title: Seq<char>,
        description: Seq<char>,
        goal_amount: u64,
        duration: u64,
        milestones: Seq<MilestoneView>,
    },
    Contribute { amount: u64 },
    ValidateMilestone { milestone_index: u8 },
    ReleaseFunds { milestone_index: u8 },
    CancelProject,
    Vote { approve: bool },
}

impl View for ColabioInstruction {
    type V = InstructionView;

    open spec fn view(&self) -> InstructionView {
        match self {
            ColabioInstruction::InitializeProject {
                title,
                description,
                goal_amount,
                duration,
                milestones,
            } => InstructionView::InitializeProject {
                title: title@,
                description: description@,
                goal_amount: *goal_amount,
                duration: *duration,
                milestones: milestones_view(milestones@),
            },
            ColabioInstruction::Contribute { amount } => InstructionView::Contribute {
                amount: *amount,
            },
            ColabioInstruction::ValidateMilestone { milestone_index } =>
                InstructionView::ValidateMilestone { milestone_index: *milestone_index },
            ColabioInstruction::ReleaseFunds { milestone_index } => InstructionView::ReleaseFunds {
                milestone_index: *milestone_index,
            },
            ColabioInstruction::CancelProject {  } => InstructionView::CancelProject,
            ColabioInstruction::Vote { approve } => InstructionView::Vote { approve: *approve },
        }
    }
}

/// Little-endian value of the four bytes of `b` at `at`.
pub open spec fn le_u32(b: Seq<u8>, at: int) -> int {
    b[at] as int + b[at + 1] as int * 0x100 + b[at + 2] as int * 0x1_0000 + b[at + 3] as int
        * 0x100_0000
}

/// Little-endian value of the eight bytes of `b` at `at`.
pub open spec fn le_u64(b: Seq<u8>, at: int) -> int {
    le_u32(b, at) + le_u32(b, at + 4) * 0x1_0000_0000
}

/// A length-prefixed UTF-8 string at offset `at`: its characters and the offset past it.
#[verifier::opaque]
pub open spec fn parse_string(b: Seq<u8>, at: int) -> Option<(Seq<char>, int)> {
    if at < 0 || at + 4 > b.len() {
        None
    } else {
        let end = at + 4 + le_u32(b, at);
        if end > b.len() || !valid_utf8(b.subrange(at + 4, end)) {
            None
        } else {
            Some((decode_utf8(b.subrange(at + 4, end)), end))
        }
    }
}

/// One milestone entry at `at` (name, description, amount), and the offset past it.
pub open spec fn parse_milestone(b: Seq<u8>, at: int) -> Option<(MilestoneView, int)> {
    match parse_string(b, at) {
        None => None,
        Some((name, a1)) => match parse_string(b, a1) {
            None => None,
            Some((description, a2)) => if a2 + 8 > b.len() {
                None
            } else {
                Some(
                    (
                        MilestoneView {
                            name,
                            description,
                            amount: le_u64(b, a2) as u64,
                            completed: false,
                            validations: 0,
                        },
                        a2 + 8,
                    ),
                )
            },
        },
    }
}

/// `count` consecutive milestone entries starting at `at`.
pub open spec fn parse_milestones(b: Seq<u8>, at: int, count: nat) -> Option<Seq<MilestoneView>>
    decreases count,
{
    if count == 0 {
        Some(Seq::empty())
    } else {
        match parse_milestone(b, at) {
            None => None,
            Some((m, next)) => match parse_milestones(b, next, (count - 1) as nat) {
                None => None,
                Some(rest) => Some(seq![m] + rest),
            },
        }
    }
}

/// The instruction a payload encodes, or why it encodes none.
///
/// After the two strings of an initialization come the goal and the duration at offsets
/// 0 and 8 of what remains, the milestone count at offset 16, then the entries.
pub open spec fn parse_instruction(b: Seq<u8>) -> Result<InstructionView, ColabioError> {
    if b.len() == 0 {
        Err(ColabioError::MalformedInstruction)
    } else if b[0] == 0 {
        match parse_string(b, 1) {
            None => Err(ColabioError::MalformedInstruction),
            Some((title, a1)) => match parse_string(b, a1) {
                None => Err(ColabioError::MalformedInstruction),
                Some((description, a2)) => if a2 + 17 > b.len() {
                    Err(ColabioError::MalformedInstruction)
                } else {
                    match parse_milestones(b, a2 + 17, b[a2 + 16] as nat) {
                        None => Err(ColabioError::MalformedInstruction),
                        Some(milestones) => Ok(
                            InstructionView::InitializeProject {
                                title,
                                description,
                                goal_amount: le_u64(b, a2) as u64,
                                duration: le_u64(b, a2 + 8) as u64,
                                milestones,
                            },
                        ),
                    }
                },
            },
        }
    } else if b[0] == 1 {
        if b.len() < 9 {
            Err(ColabioError::MalformedInstruction)
        } else {
            Ok(InstructionView::Contribute { amount: le_u64(b, 1) as u64 })
        }
    } else if b[0] == 2 {
        if b.len() < 2 {
            Err(ColabioError::MalformedInstruction)
        } else {
            Ok(InstructionView::ValidateMilestone { milestone_index: b[1] })
        }
    } else if b[0] == 3 {
        if b.len() < 2 {
            Err(ColabioError::MalformedInstruction)
        } else {
            Ok(InstructionView::ReleaseFunds { milestone_index: b[1] })
        }
    } else if b[0] == 4 {
        Ok(InstructionView::CancelProject)
    } else if b[0] == 5 {
        if b.len() < 2 {
            Err(ColabioError::MalformedInstruction)
        } else {
            Ok(InstructionView::Vote { approve: b[1] != 0 })
        }
    } else {
        Err(ColabioError::UnknownInstruction)
    }
}

/// The four little-endian bytes of `v`.
pub open spec fn u32_le_bytes(v: u32) -> Seq<u8> {
    seq![
        (v % 0x100) as u8,
        ((v / 0x100) % 0x100) as u8,
        ((v / 0x1_0000) % 0x100) as u8,
        (v / 0x100_0000) as u8,
    ]
}

/// The eight little-endian bytes of `v`.
pub open spec fn u64_le_bytes(v: u64) -> Seq<u8> {
    u32_le_bytes((v % 0x1_0000_0000) as u32) + u32_le_bytes((v / 0x1_0000_0000) as u32)
}

/// A string as the wire carries it: its UTF-8 length in four bytes, then its UTF-8 bytes.
#[verifier::opaque]
pub open spec fn encode_string(s: Seq<char>) -> Seq<u8> {
    u32_le_bytes(encode_utf8(s).len() as u32) + encode_utf8(s)
}

/// A milestone entry: name, description, amount.
pub open spec fn encode_milestone(m: MilestoneView) -> Seq<u8> {
    encode_string(m.name) + encode_string(m.description) + u64_le_bytes(m.amount)
}

/// Consecutive milestone entries.
pub open spec fn encode_milestones(ms: Seq<MilestoneView>) -> Seq<u8>
    decreases ms.len(),
{
    if ms.len() == 0 {
        Seq::empty()
    } else {
        encode_milestone(ms[0]) + encode_milestones(ms.drop_first())
    }
}

/// The payload that carries instruction `i`.
pub open spec fn encode_instruction(i: InstructionView) -> Seq<u8> {
    match i {
        InstructionView::InitializeProject {
            title,
            description,
            goal_amount,
            duration,
            milestones,
        } => seq![0u8] + encode_string(title) + encode_string(description) + u64_le_bytes(
            goal_amount,
        ) + u64_le_bytes(duration) + seq![milestones.len() as u8] + encode_milestones(milestones),
        InstructionView::Contribute { amount } => seq![1u8] + u64_le_bytes(amount),
        InstructionView::ValidateMilestone { milestone_index } => seq![2u8, milestone_index],
        InstructionView::ReleaseFunds { milestone_index } => seq![3u8, milestone_index],
        InstructionView::CancelProject => seq![4u8],
        InstructionView::Vote { approve } => seq![5u8, if approve { 1u8 } else { 0u8 }],
    }
}

/// Whether a string's UTF-8 length fits its four-byte prefix.
pub open spec fn string_fits(s: Seq<char>) -> bool {
    encode_utf8(s).len() <= u32::MAX
}

/// Whether a milestone can be carried by an initialization: its strings fit and it has no
/// validation progress.
pub open spec fn milestone_encodable(m: MilestoneView) -> bool {
    string_fits(m.name) && string_fits(m.description) && !m.completed && m.validations == 0
}

/// Whether the wire format can carry instruction `i`.
pub open spec fn encodable(i: InstructionView) -> bool {
    match i {
        InstructionView::InitializeProject { title, description, milestones, .. } => string_fits(
            title,
        ) && string_fits(description) && milestones.len() <= 0xff && forall|j: int|
            0 <= j < milestones.len() ==> milestone_encodable(#[trigger] milestones[j]),
        _ => true,
    }
}

proof fn lemma_u32_bytes_value(v: u32)
    ensures
        v % 0x100 + ((v / 0x100) % 0x100) * 0x100 + ((v / 0x1_0000) % 0x100) * 0x1_0000 + (v
            / 0x100_0000) * 0x100_0000 == v,
{
    assert(v == (v / 0x100) * 0x100 + v % 0x100);
    assert((v / 0x100) == (v / 0x1_0000) * 0x100 + (v / 0x100) % 0x100);
    assert((v / 0x1_0000) == (v / 0x100_0000) * 0x100 + (v / 0x1_0000) % 0x100);
}

/// A window of `b` that holds `e` holds each part of `e` at the matching place.
proof fn lemma_window(b: Seq<u8>, at: int, e: Seq<u8>, lo: int, hi: int)
    requires
        0 <= at,
        at + e.len() <= b.len(),
        b.subrange(at, at + e.len()) == e,
        0 <= lo <= hi <= e.len(),
    ensures
        b.subrange(at + lo, at + hi) == e.subrange(lo, hi),
{
    assert forall|k: int| 0 <= k < hi - lo implies b.subrange(at + lo, at + hi)[k] == e.subrange(
        lo,
        hi,
    )[k] by {
        assert(b.subrange(at, at + e.len())[lo + k] == e[lo + k]);
    }
    assert(b.subrange(at + lo, at + hi) =~= e.subrange(lo, hi));
}

proof fn lemma_le_u32(b: Seq<u8>, at: int, v: u32)
    requires
        0 <= at,
        at + 4 <= b.len(),
        b.subrange(at, at + 4) == u32_le_bytes(v),
    ensures
        le_u32(b, at) == v,
{
    let w = b.subrange(at, at + 4);
    assert(b[at] == w[0] && b[at + 1] == w[1] && b[at + 2] == w[2] && b[at + 3] == w[3]);
    assert(b[at] == v % 0x100);
    assert(b[at + 1] == (v / 0x100) % 0x100);
    assert(b[at + 2] == (v / 0x1_0000) % 0x100);
    assert(b[at + 3] == v / 0x100_0000);
    lemma_u32_bytes_value(v);
}

proof fn lemma_le_u64(b: Seq<u8>, at: int, v: u64)
    requires
        0 <= at,
        at + 8 <= b.len(),
        b.subrange(at, at + 8) == u64_le_bytes(v),
    ensures
        le_u64(b, at) == v,
{
    let e = u64_le_bytes(v);
    lemma_window(b, at, e, 0, 4);
    lemma_window(b, at, e, 4, 8);
    assert(e.subrange(0, 4) =~= u32_le_bytes((v % 0x1_0000_0000) as u32));
    assert(e.subrange(4, 8) =~= u32_le_bytes((v / 0x1_0000_0000) as u32));
    lemma_le_u32(b, at, (v % 0x1_0000_0000) as u32);
    lemma_le_u32(b, at + 4, (v / 0x1_0000_0000) as u32);
}

proof fn lemma_parse_encoded_string(b: Seq<u8>, at: int, s: Seq<char>)
    requires
        0 <= at,
        at + encode_string(s).len() <= b.len(),
        b.subrange(at, at + encode_string(s).len()) == encode_string(s),
        string_fits(s),
    ensures
        parse_string(b, at) == Some((s, at + encode_string(s).len())),
{
    reveal(parse_string);
    reveal(encode_string);
    let e = encode_string(s);
    let n = encode_utf8(s).len() as int;
    lemma_window(b, at, e, 0, 4);
    assert(e.subrange(0, 4) =~= u32_le_bytes(n as u32));
    lemma_le_u32(b, at, n as u32);
    lemma_window(b, at, e, 4, 4 + n);
    assert(e.subrange(4, 4 + n) =~= encode_utf8(s));
    encode_utf8_valid_utf8(s);
    encode_utf8_decode_utf8(s);
}

#[verifier::spinoff_prover]
#[verifier::rlimit(60)]
proof fn lemma_parse_encoded_milestones(b: Seq<u8>, at: int, ms: Seq<MilestoneView>)
    requires
        0 <= at,
        at + encode_milestones(ms).len() <= b.len(),
        b.subrange(at, at + encode_milestones(ms).len()) == encode_milestones(ms),
        forall|j: int| 0 <= j < ms.len() ==> milestone_encodable(#[trigger] ms[j]),
    ensures
        parse_milestones(b, at, ms.len()) == Some(ms),
    decreases ms.len(),
{
    if ms.len() == 0 {
        assert(ms =~= Seq::<MilestoneView>::empty());
    } else {
        let m = ms[0];
        assert(milestone_encodable(ms[0]));
        let whole = encode_milestones(ms);
        let en = encode_string(m.name);
        let ed = encode_string(m.description);
        let em = encode_milestone(m);
        let rest = encode_milestones(ms.drop_first());
        let l1 = en.len() as int;
        let l2 = l1 + ed.len() as int;
        let l3 = em.len() as int;
        assert(whole == em + rest);
        lemma_window(b, at, whole, 0, l1);
        assert(whole.subrange(0, l1) =~= en);
        lemma_parse_encoded_string(b, at, m.name);
        lemma_window(b, at, whole, l1, l2);
        assert(whole.subrange(l1, l2) =~= ed);
        lemma_parse_encoded_string(b, at + l1, m.description);
        lemma_window(b, at, whole, l2, l2 + 8);
        assert(whole.subrange(l2, l2 + 8) =~= u64_le_bytes(m.amount));
        lemma_le_u64(b, at + l2, m.amount);
        assert(l3 == l2 + 8);
        lemma_window(b, at, whole, l3, whole.len() as int);
        assert(whole.subrange(l3, whole.len() as int) =~= rest);
        assert forall|j: int| 0 <= j < ms.drop_first().len() implies milestone_encodable(
            #[trigger] ms.drop_first()[j],
        ) by {
            assert(milestone_encodable(ms[j + 1]));
        }
        lemma_parse_encoded_milestones(b, at + l3, ms.drop_first());
        assert(parse_milestone(b, at) == Some((m, at + l3)));
        assert(seq![m] + ms.drop_first() =~= ms);
    }
}

proof fn lemma_concat_parts(x: Seq<u8>, y: Seq<u8>)
    ensures
        (x + y).subrange(0, x.len() as int) == x,
        (x + y).subrange(x.len() as int, (x.len() + y.len()) as int) == y,
{
    assert((x + y).subrange(0, x.len() as int) =~= x);
    assert((x + y).subrange(x.len() as int, (x.len() + y.len()) as int) =~= y);
}

/// `b` starts with `x + y`: then it starts with `x`, and holds `y` right after it.
proof fn lemma_prefix_parts(b: Seq<u8>, x: Seq<u8>, y: Seq<u8>)
    requires
        (x + y).len() <= b.len(),
        b.subrange(0, (x + y).len() as int) == x + y,
    ensures
        b.subrange(0, x.len() as int) == x,
        b.subrange(x.len() as int, (x.len() + y.len()) as int) == y,
{
    lemma_concat_parts(x, y);
    lemma_window(b, 0, x + y, 0, x.len() as int);
    lemma_window(b, 0, x + y, x.len() as int, (x.len() + y.len()) as int);
}

#[verifier::spinoff_prover]
#[verifier::rlimit(60)]
proof fn lemma_round_trip_initialize_parse(
    b: Seq<u8>,
    title: Seq<char>,
    description: Seq<char>,
    goal_amount: u64,
    duration: u64,
    milestones: Seq<MilestoneView>,
    a1: int,
    a2: int,
)
    requires
        string_fits(title),
        string_fits(description),
        forall|j: int| 0 <= j < milestones.len() ==> milestone_encodable(#[trigger] milestones[j]),
        milestones.len() <= 0xff,
        a1 == 1 + encode_string(title).len(),
        a2 == a1 + encode_string(description).len(),
        a2 + 17 + encode_milestones(milestones).len() <= b.len(),
        b[0] == 0,
        b.subrange(1, a1) == encode_string(title),
        b.subrange(a1, a2) == encode_string(description),
        b.subrange(a2, a2 + 8) == u64_le_bytes(goal_amount),
        b.subrange(a2 + 8, a2 + 16) == u64_le_bytes(duration),
        b[a2 + 16] == milestones.len() as u8,
        b.subrange(a2 + 17, a2 + 17 + encode_milestones(milestones).len()) == encode_milestones(
            milestones,
        ),
    ensures
        parse_instruction(b) == Ok::<InstructionView, ColabioError>(
            InstructionView::InitializeProject {
                title,
                description,
                goal_amount,
                duration,
                milestones,
            },
        ),
{
    lemma_parse_encoded_string(b, 1, title);
    lemma_parse_encoded_string(b, a1, description);
    lemma_le_u64(b, a2, goal_amount);
    lemma_le_u64(b, a2 + 8, duration);
    lemma_parse_encoded_milestones(b, a2 + 17, milestones);
}

#[verifier::spinoff_prover]
#[verifier::rlimit(60)]
proof fn lemma_round_trip_initialize(
    title: Seq<char>,
    description: Seq<char>,
    goal_amount: u64,
    duration: u64,
    milestones: Seq<MilestoneView>,
)
    requires
        encodable(
            InstructionView::InitializeProject {
                title,
                description,
                goal_amount,
                duration,
                milestones,
            },
        ),
    ensures
        parse_instruction(
            encode_instruction(
                InstructionView::InitializeProject {
                    title,
                    description,
                    goal_amount,
                    duration,
                    milestones,
                },
            ),
        ) == Ok::<InstructionView, ColabioError>(
            InstructionView::InitializeProject {
                title,
                description,
                goal_amount,
                duration,
                milestones,
            },
        ),
{
    let et = encode_string(title);
    let ed = encode_string(description);
    let eg = u64_le_bytes(goal_amount);
    let eu = u64_le_bytes(duration);
    let ec = seq![milestones.len() as u8];
    let em = encode_milestones(milestones);
    let p1 = seq![0u8] + et;
    let p2 = p1 + ed;
    let p3 = p2 + eg;
    let p4 = p3 + eu;
    let p5 = p4 + ec;
    let b = p5 + em;
    assert(b.subrange(0, b.len() as int) =~= b);
    lemma_prefix_parts(b, p5, em);
    lemma_prefix_parts(b, p4, ec);
    lemma_prefix_parts(b, p3, eu);
    lemma_prefix_parts(b, p2, eg);
    lemma_prefix_parts(b, p1, ed);
    lemma_prefix_parts(b, seq![0u8], et);
    let a1: int = p1.len() as int;
    let a2: int = p2.len() as int;
    assert(b[0] == 0);
    assert(b[a2 + 16] == b.subrange(a2 + 16, a2 + 17)[0]);
    lemma_round_trip_initialize_parse(b, title, description, goal_amount, duration, milestones, a1, a2);
}

/// Decoding the encoding of any instruction that the wire format can carry gives that
/// instruction back.
pub proof fn lemma_round_trip(i: InstructionView)
    requires
        encodable(i),
    ensures
        parse_instruction(encode_instruction(i)) == Ok::<InstructionView, ColabioError>(i),
{
    let b = encode_instruction(i);
    match i {
        InstructionView::InitializeProject {
            title,
            description,
            goal_amount,
            duration,
            milestones,
        } => {
            lemma_round_trip_initialize(title, description, goal_amount, duration, milestones);
        },
        InstructionView::Contribute { amount } => {
            assert(b.subrange(1, 9) =~= u64_le_bytes(amount));
            lemma_le_u64(b, 1, amount);
        },
        _ => {},
    }
}

/// `b` holds `e` placed at `at`, as far as `b` reaches.
#[verifier::opaque]
spec fn agrees_at(b: Seq<u8>, at: int, e: Seq<u8>) -> bool {
    forall|j: int| at <= j < b.len() && j < at + e.len() ==> b[j] == e[j - at]
}

proof fn lemma_agrees_take(e: Seq<u8>, k: int)
    requires
        0 <= k <= e.len(),
    ensures
        agrees_at(e.take(k), 0, e),
{
    reveal(agrees_at);
}

proof fn lemma_agrees_full(b: Seq<u8>, at: int, e: Seq<u8>)
    requires
        agrees_at(b, at, e),
        0 <= at,
        at + e.len() <= b.len(),
    ensures
        b.subrange(at, at + e.len()) == e,
{
    reveal(agrees_at);
    assert forall|k: int| 0 <= k < e.len() implies b.subrange(at, at + e.len())[k] == e[k] by {
        assert(b[at + k] == e[at + k - at]);
    }
    assert(b.subrange(at, at + e.len()) =~= e);
}

proof fn lemma_agrees_shift(b: Seq<u8>, at: int, e: Seq<u8>, lo: int, hi: int)
    requires
        agrees_at(b, at, e),
        0 <= lo <= hi <= e.len(),
    ensures
        agrees_at(b, at + lo, e.subrange(lo, hi)),
{
    reveal(agrees_at);
    assert forall|j: int| at + lo <= j < b.len() && j < at + lo + e.subrange(lo, hi).len() implies b[j]
        == e.subrange(lo, hi)[j - (at + lo)] by {
        assert(b[j] == e[j - at]);
    }
}

proof fn lemma_truncated_string(b: Seq<u8>, at: int, s: Seq<char>)
    requires
        agrees_at(b, at, encode_string(s)),
        0 <= at <= b.len(),
        b.len() < at + encode_string(s).len(),
        string_fits(s),
    ensures
        parse_string(b, at) is None,
{
    reveal(agrees_at);
    reveal(parse_string);
    reveal(encode_string);
    let e = encode_string(s);
    if at + 4 <= b.len() {
        lemma_agrees_shift(b, at, e, 0, 4);
        assert(at + 0 == at);
        lemma_agrees_full(b, at, e.subrange(0, 4));
        assert(e.subrange(0, 4) =~= u32_le_bytes(encode_utf8(s).len() as u32));
        lemma_le_u32(b, at, encode_utf8(s).len() as u32);
    }
}

#[verifier::spinoff_prover]
#[verifier::rlimit(60)]
proof fn lemma_truncated_milestones(b: Seq<u8>, at: int, ms: Seq<MilestoneView>)
    requires
        agrees_at(b, at, encode_milestones(ms)),
        0 <= at <= b.len(),
        b.len() < at + encode_milestones(ms).len(),
        forall|j: int| 0 <= j < ms.len() ==> milestone_encodable(#[trigger] ms[j]),
    ensures
        parse_milestones(b, at, ms.len()) is None,
    decreases ms.len(),
{
    if ms.len() == 0 {
        assert(encode_milestones(ms).len() == 0);
    } else {
        let m = ms[0];
        assert(milestone_encodable(ms[0]));
        let whole = encode_milestones(ms);
        let en = encode_string(m.name);
        let ed = encode_string(m.description);
        let em = encode_milestone(m);
        let rest = encode_milestones(ms.drop_first());
        let l1 = en.len() as int;
        let l2 = l1 + ed.len() as int;
        let l3 = em.len() as int;
        assert(whole == em + rest);
        assert(l3 == l2 + 8);
        assert(whole.subrange(0, l1) =~= en);
        assert(whole.subrange(l1, l2) =~= ed);
        assert(whole.subrange(l2, l3) =~= u64_le_bytes(m.amount));
        assert(whole.subrange(l3, whole.len() as int) =~= rest);
        lemma_agrees_shift(b, at, whole, 0, l1);
        assert(at + 0 == at);
        if b.len() < at + l1 {
            lemma_truncated_string(b, at, m.name);
        } else {
            lemma_agrees_full(b, at, en);
            lemma_parse_encoded_string(b, at, m.name);
            lemma_agrees_shift(b, at, whole, l1, l2);
            if b.len() < at + l2 {
                lemma_truncated_string(b, at + l1, m.description);
            } else {
                lemma_agrees_full(b, at + l1, ed);
                lemma_parse_encoded_string(b, at + l1, m.description);
                if b.len() >= at + l3 {
                    lemma_agrees_shift(b, at, whole, l2, l3);
                    lemma_agrees_full(b, at + l2, u64_le_bytes(m.amount));
                    lemma_le_u64(b, at + l2, m.amount);
                    assert(parse_milestone(b, at) == Some((m, at + l3)));
                    lemma_agrees_shift(b, at, whole, l3, whole.len() as int);
                    assert forall|j: int| 0 <= j < ms.drop_first().len() implies milestone_encodable(
                        #[trigger] ms.drop_first()[j],
                    ) by {
                        assert(milestone_encodable(ms[j + 1]));
                    }
                    lemma_truncated_milestones(b, at + l3, ms.drop_first());
                }
            }
        }
    }
}

#[verifier::spinoff_prover]
#[verifier::rlimit(60)]
proof fn lemma_truncated_initialize_parse(
    b: Seq<u8>,
    title: Seq<char>,
    description: Seq<char>,
    milestones: Seq<MilestoneView>,
    a1: int,
    a2: int,
)
    requires
        string_fits(title),
        string_fits(description),
        forall|j: int| 0 <= j < milestones.len() ==> milestone_encodable(#[trigger] milestones[j]),
        milestones.len() <= 0xff,
        a1 == 1 + encode_string(title).len(),
        a2 == a1 + encode_string(description).len(),
        b.len() >= 1,
        b[0] == 0,
        agrees_at(b, 1, encode_string(title)),
        agrees_at(b, a1, encode_string(description)),
        agrees_at(b, a2 + 17, encode_milestones(milestones)),
        b.len() > a2 + 16 ==> b[a2 + 16] == milestones.len() as u8,
        b.len() < a2 + 17 + encode_milestones(milestones).len(),
    ensures
        parse_instruction(b) == Err::<InstructionView, ColabioError>(
            ColabioError::MalformedInstruction,
        ),
{
    let et = encode_string(title);
    let ed = encode_string(description);
    if b.len() < a1 {
        lemma_truncated_string(b, 1, title);
    } else {
        lemma_agrees_full(b, 1, et);
        lemma_parse_encoded_string(b, 1, title);
        if b.len() < a2 {
            lemma_truncated_string(b, a1, description);
        } else {
            lemma_agrees_full(b, a1, ed);
            lemma_parse_encoded_string(b, a1, description);
            if b.len() >= a2 + 17 {
                lemma_truncated_milestones(b, a2 + 17, milestones);
            }
        }
    }
}

#[verifier::spinoff_prover]
#[verifier::rlimit(60)]
proof fn lemma_truncated_initialize(
    title: Seq<char>,
    description: Seq<char>,
    goal_amount: u64,
    duration: u64,
    milestones: Seq<MilestoneView>,
    k: int,
)
    requires
        encodable(
            InstructionView::InitializeProject {
                title,
                description,
                goal_amount,
                duration,
                milestones,
            },
        ),
        1 <= k < encode_instruction(
            InstructionView::InitializeProject {
                title,
                description,
                goal_amount,
                duration,
                milestones,
            },
        ).len(),
    ensures
        parse_instruction(
            encode_instruction(
                InstructionView::InitializeProject {
                    title,
                    description,
                    goal_amount,
                    duration,
                    milestones,
                },
            ).take(k),
        ) == Err::<InstructionView, ColabioError>(ColabioError::MalformedInstruction),
{
    let et = encode_string(title);
    let ed = encode_string(description);
    let eg = u64_le_bytes(goal_amount);
    let eu = u64_le_bytes(duration);
    let ec = seq![milestones.len() as u8];
    let em = encode_milestones(milestones);
    let p1 = seq![0u8] + et;
    let p2 = p1 + ed;
    let p3 = p2 + eg;
    let p4 = p3 + eu;
    let p5 = p4 + ec;
    let whole = p5 + em;
    let b = whole.take(k);
    assert(whole.subrange(0, whole.len() as int) =~= whole);
    lemma_prefix_parts(whole, p5, em);
    lemma_prefix_parts(whole, p4, ec);
    lemma_prefix_parts(whole, p3, eu);
    lemma_prefix_parts(whole, p2, eg);
    lemma_prefix_parts(whole, p1, ed);
    lemma_prefix_parts(whole, seq![0u8], et);
    let a1: int = p1.len() as int;
    let a2: int = p2.len() as int;
    let a5: int = p5.len() as int;
    lemma_agrees_take(whole, k);
    assert(b[0] == 0);
    lemma_agrees_shift(b, 0, whole, 1, a1);
    lemma_agrees_shift(b, 0, whole, a1, a2);
    lemma_agrees_shift(b, 0, whole, a5, whole.len() as int);
    if k > a2 + 16 {
        assert(b[a2 + 16] == whole[a2 + 16]);
        assert(whole[a2 + 16] == whole.subrange(a2 + 16, a5)[0]);
    }
    lemma_truncated_initialize_parse(b, title, description, milestones, a1, a2);
}

/// Every proper prefix of the encoding of an instruction that the wire format can carry is
/// refused as malformed.
pub proof fn lemma_truncated(i: InstructionView, k: int)
    requires
        encodable(i),
        0 <= k < encode_instruction(i).len(),
    ensures
        parse_instruction(encode_instruction(i).take(k)) == Err::<InstructionView, ColabioError>(
            ColabioError::MalformedInstruction,
        ),
{
    let b = encode_instruction(i).take(k);
    if k > 0 {
        assert(b[0] == encode_instruction(i)[0]);
        match i {
            InstructionView::InitializeProject {
                title,
                description,
                goal_amount,
                duration,
                milestones,
            } => {
                lemma_truncated_initialize(title, description, goal_amount, duration, milestones, k);
            },
            _ => {},
        }
    }
}

proof fn lemma_parsed_string_fits(b: Seq<u8>, at: int)
    ensures
        parse_string(b, at) matches Some((s, next)) ==> string_fits(s),
{
    reveal(parse_string);
    if let Some((s, next)) = parse_string(b, at) {
        decode_utf8_encode_utf8(b.subrange(at + 4, next));
    }
}

proof fn lemma_parsed_milestones_encodable(b: Seq<u8>, at: int, count: nat)
    ensures
        parse_milestones(b, at, count) matches Some(ms) ==> ms.len() == count && forall|j: int|
            0 <= j < ms.len() ==> milestone_encodable(#[trigger] ms[j]),
    decreases count,
{
    if count > 0 {
        if let Some((m, next)) = parse_milestone(b, at) {
            lemma_parsed_string_fits(b, at);
            if let Some((name, a1)) = parse_string(b, at) {
                lemma_parsed_string_fits(b, a1);
            }
            lemma_parsed_milestones_encodable(b, next, (count - 1) as nat);
            if let Some(rest) = parse_milestones(b, next, (count - 1) as nat) {
                let ms = seq![m] + rest;
                assert forall|j: int| 0 <= j < ms.len() implies milestone_encodable(
                    #[trigger] ms[j],
                ) by {
                    if j > 0 {
                        assert(ms[j] == rest[j - 1]);
                    }
                }
            }
        }
    }
}

/// Whatever the decoder accepts, the wire format can carry: decoding a payload, encoding
/// the result and decoding again gives the same instruction.
pub proof fn lemma_decode_reencode(b: Seq<u8>)
    ensures
        parse_instruction(b) matches Ok(v) ==> encodable(v) && parse_instruction(
            encode_instruction(v),
        ) == Ok::<InstructionView, ColabioError>(v),
{
    if b.len() > 0 && b[0] == 0 {
        lemma_parsed_string_fits(b, 1);
        if let Some((title, a1)) = parse_string(b, 1) {
            lemma_parsed_string_fits(b, a1);
            if let Some((description, a2)) = parse_string(b, a1) {
                if a2 + 17 <= b.len() {
                    lemma_parsed_milestones_encodable(b, a2 + 17, b[a2 + 16] as nat);
                }
            }
        }
    }
    if let Ok(v) = parse_instruction(b) {
        lemma_round_trip(v);
    }
}

proof fn lemma_encode_milestones_push(ms: Seq<MilestoneView>, m: MilestoneView)
    ensures
        encode_milestones(ms.push(m)) == encode_milestones(ms) + encode_milestone(m),
    decreases ms.len(),
{
    let em = encode_milestone(m);
    if ms.len() == 0 {
        assert(ms.push(m).drop_first() =~= ms);
        assert(ms.push(m)[0] == m);
        assert(encode_milestones(ms) == Seq::<u8>::empty());
        assert(em + Seq::<u8>::empty() =~= em);
        assert(Seq::<u8>::empty() + em =~= em);
    } else {
        let t = ms.drop_first();
        let e0 = encode_milestone(ms[0]);
        assert(ms.push(m).drop_first() =~= t.push(m));
        assert(ms.push(m)[0] == ms[0]);
        lemma_encode_milestones_push(t, m);
        let et = encode_milestones(t);
        assert(encode_milestones(ms.push(m)) == e0 + (et + em));
        assert(encode_milestones(ms) == e0 + et);
        assert(e0 + (et + em) =~= (e0 + et) + em);
    }
}

/// Relies on `String::from_utf8`: it succeeds exactly on valid UTF-8 and then holds the
/// characters those bytes encode.
#[verifier::external_body]
fn string_from_utf8(bytes: Vec<u8>) -> (r: Option<String>)
    ensures
        r is Some <==> valid_utf8(bytes@),
        r matches Some(s) ==> s@ == decode_utf8(bytes@),
{
    String::from_utf8(bytes).ok()
}

fn read_u32_le(input: &[u8], at: usize) -> (r: u32)
    requires
        at + 4 <= input@.len(),
    ensures
        r as int == le_u32(input@, at as int),
{
    (input[at] as u32) + (input[at + 1] as u32) * 0x100 + (input[at + 2] as u32) * 0x1_0000 + (
    input[at + 3] as u32) * 0x100_0000
}

fn read_u64_le(input: &[u8], at: usize) -> (r: u64)
    requires
        at + 8 <= input.len(),
    ensures
        r as int == le_u64(input@, at as int),
{
    let lo = read_u32_le(input, at) as u64;
    let hi = read_u32_le(input, at + 4) as u64;
    lo + hi * 0x1_0000_0000
}

fn unpack_string(input: &[u8], at: usize) -> (r: Result<(String, usize), ColabioError>)
    ensures
        match parse_string(input@, at as int) {
            None => r == Err::<(String, usize), ColabioError>(ColabioError::MalformedInstruction),
            Some((s, next)) => r matches Ok((t, n)) && t@ == s && n == next,
        },
        r matches Ok((t, n)) ==> n <= input@.len(),
{
    reveal(parse_string);
    if at > input.len() || input.len() - at < 4 {
        return Err(ColabioError::MalformedInstruction);
    }
    let n = read_u32_le(input, at) as usize;
    if n > input.len() - at - 4 {
        return Err(ColabioError::MalformedInstruction);
    }
    let end = at + 4 + n;
    let mut bytes: Vec<u8> = Vec::new();
    let mut j: usize = at + 4;
    while j < end
        invariant
            at + 4 <= j <= end <= input@.len(),
            bytes@ == input@.subrange(at + 4, j as int),
        decreases end - j,
    {
        bytes.push(input[j]);
        j = j + 1;
        assert(bytes@ =~= input@.subrange(at + 4, j as int));
    }
    match string_from_utf8(bytes) {
        Some(s) => Ok((s, end)),
        None => Err(ColabioError::MalformedInstruction),
    }
}

fn unpack_milestone(input: &[u8], at: usize) -> (r: Result<(Milestone, usize), ColabioError>)
    ensures
        match parse_milestone(input@, at as int) {
            None => r == Err::<(Milestone, usize), ColabioError>(
                ColabioError::MalformedInstruction,
            ),
            Some((m, next)) => r matches Ok((t, n)) && t@ == m && n == next,
        },
        r matches Ok((t, n)) ==> n <= input@.len(),
{
    let (name, o1) = match unpack_string(input, at) {
        Ok(x) => x,
        Err(e) => return Err(e),
    };
    let (description, o2) = match unpack_string(input, o1) {
        Ok(x) => x,
        Err(e) => return Err(e),
    };
    if input.len() - o2 < 8 {
        return Err(ColabioError::MalformedInstruction);
    }
    let amount = read_u64_le(input, o2);
    Ok((Milestone { name, description, amount, completed: false, validations: 0 }, o2 + 8))
}

fn unpack_milestones(input: &[u8], at: usize, count: u8) -> (r: Result<Vec<Milestone>, ColabioError>)
    ensures
        match parse_milestones(input@, at as int, count as nat) {
            None => r == Err::<Vec<Milestone>, ColabioError>(ColabioError::MalformedInstruction),
            Some(ms) => r matches Ok(v) && milestones_view(v@) == ms,
        },
{
    let ghost b = input@;
    let mut milestones: Vec<Milestone> = Vec::new();
    let mut offset: usize = at;
    let mut k: u8 = 0;
    while k < count
        invariant
            b == input@,
            k <= count,
            parse_milestones(b, at as int, count as nat) == match parse_milestones(
                b,
                offset as int,
                (count - k) as nat,
            ) {
                None => None,
                Some(rest) => Some(milestones_view(milestones@) + rest),
            },
        decreases count - k,
    {
        let (m, next) = match unpack_milestone(input, offset) {
            Ok(x) => x,
            Err(e) => return Err(e),
        };
        let ghost mv = m@;
        let ghost before = milestones_view(milestones@);
        milestones.push(m);
        assert(milestones_view(milestones@) =~= before.push(mv));
        offset = next;
        k = k + 1;
        proof {
            if let Some(rest) = parse_milestones(b, offset as int, (count - k) as nat) {
                assert(before + (seq![mv] + rest) =~= before.push(mv) + rest);
            }
        }
    }
    assert(milestones_view(milestones@) + Seq::<MilestoneView>::empty() =~= milestones_view(
        milestones@,
    ));
    Ok(milestones)
}

fn push_u32_le(out: &mut Vec<u8>, v: u32)
    ensures
        final(out)@ == old(out)@ + u32_le_bytes(v),
{
    out.push((v % 0x100) as u8);
    out.push(((v / 0x100) % 0x100) as u8);
    out.push(((v / 0x1_0000) % 0x100) as u8);
    out.push((v / 0x100_0000) as u8);
    assert(out@ =~= old(out)@ + u32_le_bytes(v));
}

fn push_u64_le(out: &mut Vec<u8>, v: u64)
    ensures
        final(out)@ == old(out)@ + u64_le_bytes(v),
{
    push_u32_le(out, (v % 0x1_0000_0000) as u32);
    push_u32_le(out, (v / 0x1_0000_0000) as u32);
    assert(out@ =~= old(out)@ + u64_le_bytes(v));
}

fn push_string(out: &mut Vec<u8>, s: &String)
    requires
        string_fits(s@),
    ensures
        final(out)@ == old(out)@ + encode_string(s@),
{
    reveal(encode_string);
    let bytes = s.as_str().as_bytes();
    assert(bytes@ == encode_utf8(s@));
    push_u32_le(out, bytes.len() as u32);
    let ghost start = out@;
    let mut j: usize = 0;
    while j < bytes.len()
        invariant
            0 <= j <= bytes@.len(),
            out@ == start + bytes@.subrange(0, j as int),
        decreases bytes@.len() - j,
    {
        out.push(bytes[j]);
        j = j + 1;
        assert(out@ =~= start + bytes@.subrange(0, j as int));
    }
    assert(bytes@.subrange(0, j as int) =~= bytes@);
    assert(out@ =~= old(out)@ + encode_string(s@));
}

impl ColabioInstruction {
    /// Encodes the instruction as the payload that [`ColabioInstruction::unpack`] reads.
    pub fn pack(&self) -> (r: Vec<u8>)
        requires
            encodable(self@),
        ensures
            r@ == encode_instruction(self@),
    {
        let mut out: Vec<u8> = Vec::new();
        match self {
            ColabioInstruction::InitializeProject {
                title,
                description,
                goal_amount,
                duration,
                milestones,
            } => {
                out.push(0);
                push_string(&mut out, title);
                push_string(&mut out, description);
                push_u64_le(&mut out, *goal_amount);
                push_u64_le(&mut out, *duration);
                out.push(milestones.len() as u8);
                let ghost head = out@;
                let ghost mv = milestones_view(milestones@);
                let mut j: usize = 0;
                while j < milestones.len()
                    invariant
                        0 <= j <= milestones@.len(),
                        mv == milestones_view(milestones@),
                        forall|k: int| 0 <= k < mv.len() ==> milestone_encodable(#[trigger] mv[k]),
                        out@ == head + encode_milestones(mv.take(j as int)),
                    decreases milestones@.len() - j,
                {
                    let m = &milestones[j];
                    assert(mv[j as int] == m@);
                    assert(milestone_encodable(mv[j as int]));
                    push_string(&mut out, &m.name);
                    push_string(&mut out, &m.description);
                    push_u64_le(&mut out, m.amount);
                    proof {
                        assert(mv.take(j + 1) =~= mv.take(j as int).push(m@));
                        lemma_encode_milestones_push(mv.take(j as int), m@);
                    }
                    j = j + 1;
                    assert(out@ =~= head + encode_milestones(mv.take(j as int)));
                }
                assert(mv.take(j as int) =~= mv);
                assert(out@ =~= encode_instruction(self@));
            },
            ColabioInstruction::Contribute { amount } => {
                out.push(1);
                push_u64_le(&mut out, *amount);
                assert(out@ =~= encode_instruction(self@));
            },
            ColabioInstruction::ValidateMilestone { milestone_index } => {
                out.push(2);
                out.push(*milestone_index);
                assert(out@ =~= encode_instruction(self@));
            },
            ColabioInstruction::ReleaseFunds { milestone_index } => {
                out.push(3);
                out.push(*milestone_index);
                assert(out@ =~= encode_instruction(self@));
            },
            ColabioInstruction::CancelProject {  } => {
                out.push(4);
                assert(out@ =~= encode_instruction(self@));
            },
            ColabioInstruction::Vote { approve } => {
                out.push(5);
                out.push(if *approve { 1 } else { 0 });
                assert(out@ =~= encode_instruction(self@));
            },
        }
        out
    }

    /// Decodes a payload: a tag byte, then the fields of that instruction.
    pub fn unpack(input: &[u8]) -> (r: Result<ColabioInstruction, ColabioError>)
        ensures
            match parse_instruction(input@) {
                Ok(v) => r matches Ok(i) && i@ == v,
                Err(e) => r == Err::<ColabioInstruction, ColabioError>(e),
            },
            r matches Ok(i) ==> encodable(i@),
    {
        proof {
            lemma_decode_reencode(input@);
        }
        if input.len() == 0 {
            return Err(ColabioError::MalformedInstruction);
        }
        let tag = input[0];
        if tag == 0 {
            let (title, a1) = match unpack_string(input, 1) {
                Ok(x) => x,
                Err(e) => return Err(e),
            };
            let (description, a2) = match unpack_string(input, a1) {
                Ok(x) => x,
                Err(e) => return Err(e),
            };
            if input.len() - a2 < 17 {
                return Err(ColabioError::MalformedInstruction);
            }
            let goal_amount = read_u64_le(input, a2);
            let duration = read_u64_le(input, a2 + 8);
            let count = input[a2 + 16];
            let milestones = match unpack_milestones(input, a2 + 17, count) {
                Ok(ms) => ms,
                Err(e) => return Err(e),
            };
            Ok(ColabioInstruction::InitializeProject {
                title,
                description,
                goal_amount,
                duration,
                milestones,
            })
        } else if tag == 1 {
            if input.len() < 9 {
                return Err(ColabioError::MalformedInstruction);
            }
            Ok(ColabioInstruction::Contribute { amount: read_u64_le(input, 1) })
        } else if tag == 2 {
            if input.len() < 2 {
                return Err(ColabioError::MalformedInstruction);
            }
            Ok(ColabioInstruction::ValidateMilestone { milestone_index: input[1] })
        } else if tag == 3 {
            if input.len() < 2 {
                return Err(ColabioError::MalformedInstruction);
            }
            Ok(ColabioInstruction::ReleaseFunds { milestone_index: input[1] })
        } else if tag == 4 {
            Ok(ColabioInstruction::CancelProject {  })
        } else if tag == 5 {
            if input.len() < 2 {
                return Err(ColabioError::MalformedInstruction);
            }
            Ok(ColabioInstruction::Vote { approve: input[1] != 0 })
        } else {
            Err(ColabioError::UnknownInstruction)
        }
    }
}

} // verus!
