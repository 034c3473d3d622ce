//! The attributes of a control group and the grammar of their values.
//!
//! Every value is a short run of ASCII bytes. A value that is written may end
//! in one line feed, which is ignored; a value that is read always ends in one.

use vstd::prelude::*;
use vstd::slice::slice_subrange;
use vstd::string::*;
use crate::text::{
    append_bytes, ascii, ascii_bytes, bytes_equal, decimal, decimal_round_trip, decode_decimal,
    encode_decimal, parse_decimal, LINE_FEED, SPACE,
};

verus! {

/// Smallest CPU weight a group accepts.
pub const MIN_WEIGHT: u32 = 1;

/// Largest CPU weight a group accepts.
pub const MAX_WEIGHT: u32 = 10_000;

/// The CPU weight of a group nobody has configured.
pub const DEFAULT_WEIGHT: u32 = 100;

/// The accounting period, in microseconds, of a group nobody has configured.
pub const DEFAULT_PERIOD: u64 = 100_000;

/// A resource controller that can be delegated down the tree.
#[derive(Clone, Copy, Debug, PartialEq, Eq, Structural)]
pub enum Controller {
    /// Weighted sharing and ceilings of CPU time.
    Cpu,
    /// Placement on CPUs.
    Cpuset,
}

impl Controller {
    /// The controller's name on the wire.
    pub open spec fn spec_name(self) -> Seq<char> {
        match self {
            Controller::Cpu => "cpu"@,
            Controller::Cpuset => "cpuset"@,
        }
    }

    /// The controller's name on the wire.
    pub fn name(&self) -> (name: &'static str)
        ensures
            name@ == self.spec_name(),
    {
        match self {
            Controller::Cpu => "cpu",
            Controller::Cpuset => "cpuset",
        }
    }
}

/// A set of controllers.
#[derive(Clone, Copy, Debug, PartialEq, Eq, Structural)]
pub struct ControllerSet {
    cpu: bool,
    cpuset: bool,
}

impl View for ControllerSet {
    type V = Set<Controller>;

    closed spec fn view(&self) -> Set<Controller> {
        Set::new(
            |c: Controller|
                match c {
                    Controller::Cpu => self.cpu,
                    Controller::Cpuset => self.cpuset,
                },
        )
    }
}

impl ControllerSet {
    /// The set without any controller.
    pub fn empty() -> (set: Self)
        ensures
            set@ == Set::<Controller>::empty(),
    {
        ControllerSet { cpu: false, cpuset: false }
    }

    /// The set of every controller.
    pub fn all() -> (set: Self)
        ensures
            set@ == Set::<Controller>::full(),
    {
        ControllerSet { cpu: true, cpuset: true }
    }

    /// Whether `controller` is in the set.
    pub fn contains(&self, controller: Controller) -> (found: bool)
        ensures
            found == self@.contains(controller),
    {
        match controller {
            Controller::Cpu => self.cpu,
            Controller::Cpuset => self.cpuset,
        }
    }

    /// The set with `controller` added.
    pub fn with(self, controller: Controller) -> (set: Self)
        ensures
            set@ == self@.insert(controller),
    {
        match controller {
            Controller::Cpu => ControllerSet { cpu: true, cpuset: self.cpuset },
            Controller::Cpuset => ControllerSet { cpu: self.cpu, cpuset: true },
        }
    }

    /// The controllers of either set.
    pub fn union(self, other: ControllerSet) -> (set: Self)
        ensures
            set@ == self@.union(other@),
    {
        ControllerSet {
            cpu: self.cpu || other.cpu,
            cpuset: self.cpuset || other.cpuset,
        }
    }

    /// Whether every controller of this set is in `other`.
    pub fn is_subset_of(&self, other: &ControllerSet) -> (within: bool)
        ensures
            within == self@.subset_of(other@),
    {
        let within = (!self.cpu || other.cpu) && (!self.cpuset || other.cpuset);
        proof {
            if !within {
                if self.cpu && !other.cpu {
                    assert(self@.contains(Controller::Cpu));
                } else {
                    assert(self@.contains(Controller::Cpuset));
                }
            }
        }
        within
    }

    /// Whether the set holds no controller.
    pub fn is_empty(&self) -> (none: bool)
        ensures
            none == (self@ == Set::<Controller>::empty()),
    {
        let none = !self.cpu && !self.cpuset;
        proof {
            if none {
                assert(self@ =~= Set::<Controller>::empty());
            } else if self.cpu {
                assert(self@.contains(Controller::Cpu));
            } else {
                assert(self@.contains(Controller::Cpuset));
            }
        }
        none
    }
}

/// An attribute of a control group.
#[derive(Clone, Copy, Debug, PartialEq, Eq, Structural)]
pub enum Attribute {
    /// Whether the group takes single threads as members.
    Type,
    /// The group's share of CPU time among its siblings.
    CpuWeight,
    /// The ceiling on the group's CPU time.
    CpuMax,
    /// The controllers the group hands down to its children.
    SubtreeControl,
    /// The threads that are members of the group.
    Threads,
}

impl Attribute {
    /// The name of the attribute's file.
    pub open spec fn spec_file_name(self) -> Seq<char> {
        match self {
            Attribute::Type => "cgroup.type"@,
            Attribute::CpuWeight => "cpu.weight"@,
            Attribute::CpuMax => "cpu.max"@,
            Attribute::SubtreeControl => "cgroup.subtree_control"@,
            Attribute::Threads => "cgroup.threads"@,
        }
    }

    /// The name of the attribute's file.
    pub fn file_name(&self) -> (name: &'static str)
        ensures
            name@ == self.spec_file_name(),
    {
        match self {
            Attribute::Type => "cgroup.type",
            Attribute::CpuWeight => "cpu.weight",
            Attribute::CpuMax => "cpu.max",
            Attribute::SubtreeControl => "cgroup.subtree_control",
            Attribute::Threads => "cgroup.threads",
        }
    }
}

/// A ceiling on CPU time: at most `quota` microseconds in every `period`
/// microseconds, or no ceiling where `quota` is `None`.
#[derive(Clone, Copy, Debug, PartialEq, Eq)]
pub struct CpuCeiling {
    pub quota: Option<u64>,
    pub period: u64,
}

impl CpuCeiling {
    /// Whether the ceiling can be set: a period and a quota above zero.
    pub open spec fn valid(self) -> bool {
        self.period > 0 && self.quota != Some(0u64)
    }

    /// The ceiling of a group nobody has configured: none.
    pub open spec fn spec_unlimited() -> CpuCeiling {
        CpuCeiling { quota: None, period: DEFAULT_PERIOD }
    }

    /// The ceiling of a group nobody has configured: none.
    pub fn unlimited() -> (ceiling: Self)
        ensures
            ceiling == Self::spec_unlimited(),
    {
        CpuCeiling { quota: None, period: DEFAULT_PERIOD }
    }

    /// Decides [`CpuCeiling::valid`].
    pub fn is_valid(&self) -> (valid: bool)
        ensures
            valid == self.valid(),
    {
        let quota_set = match self.quota {
            Some(quota) => quota > 0,
            None => true,
        };
        self.period > 0 && quota_set
    }
}

/// A written value without the line feed that may end it.
pub open spec fn trim_line(value: Seq<u8>) -> Seq<u8> {
    if value.len() > 0 && value.last() == LINE_FEED {
        value.drop_last()
    } else {
        value
    }
}

/// Where the first word of `bytes` ends: the place of the first space, or the
/// length where there is none.
pub open spec fn word_end(bytes: Seq<u8>) -> int
    decreases bytes.len(),
{
    if bytes.len() == 0 || bytes[0] == SPACE {
        0
    } else {
        1 + word_end(bytes.skip(1))
    }
}

/// The bytes before the first space.
pub open spec fn first_word(bytes: Seq<u8>) -> Seq<u8> {
    bytes.take(word_end(bytes))
}

/// The bytes after the first space; empty where there is none.
pub open spec fn after_word(bytes: Seq<u8>) -> Seq<u8> {
    if word_end(bytes) >= bytes.len() {
        Seq::empty()
    } else {
        bytes.skip(word_end(bytes) + 1)
    }
}

/// The one value the type attribute takes.
pub open spec fn threaded_text() -> Seq<u8> {
    ascii("threaded"@)
}

/// What the type attribute reads as.
pub open spec fn type_text(threaded: bool) -> Seq<u8> {
    if threaded {
        ascii("threaded"@).push(LINE_FEED)
    } else {
        ascii("domain"@).push(LINE_FEED)
    }
}

/// Whether a written value asks for threaded mode.
pub open spec fn names_threaded(value: Seq<u8>) -> bool {
    trim_line(value) == threaded_text()
}

/// The weight a written value asks for: a decimal numeral between
/// [`MIN_WEIGHT`] and [`MAX_WEIGHT`].
pub open spec fn parse_weight(value: Seq<u8>) -> Option<u32> {
    match parse_decimal(trim_line(value)) {
        Some(weight) => if MIN_WEIGHT <= weight <= MAX_WEIGHT {
            Some(weight as u32)
        } else {
            None
        },
        None => None,
    }
}

/// The thread a written value names: a decimal numeral.
pub open spec fn parse_thread_id(value: Seq<u8>) -> Option<u64> {
    parse_decimal(trim_line(value))
}

/// The controller that one word of a delegation asks for.
pub open spec fn directive(word: Seq<u8>) -> Option<Controller> {
    if word == ascii("+cpu"@) {
        Some(Controller::Cpu)
    } else if word == ascii("+cpuset"@) {
        Some(Controller::Cpuset)
    } else {
        None
    }
}

/// The controllers that a run of words asks for, the words set apart by
/// single spaces; `None` where a word is no directive.
pub open spec fn parse_directive_words(bytes: Seq<u8>) -> Option<Set<Controller>>
    decreases bytes.len(),
{
    if bytes.len() == 0 {
        Some(Set::empty())
    } else {
        proof {
            word_end_bounds(bytes);
        }
        match directive(first_word(bytes)) {
            None => None,
            Some(controller) => match parse_directive_words(after_word(bytes)) {
                None => None,
                Some(others) => Some(others.insert(controller)),
            },
        }
    }
}

/// The controllers a written delegation asks for.
pub open spec fn parse_directives(value: Seq<u8>) -> Option<Set<Controller>> {
    parse_directive_words(trim_line(value))
}

/// The word that asks for `controller` to be handed down: `+cpu` or
/// `+cpuset`.
pub open spec fn directive_word(controller: Controller) -> Seq<u8> {
    match controller {
        Controller::Cpu => ascii("+cpu"@),
        Controller::Cpuset => ascii("+cpuset"@),
    }
}

/// The delegation of one controller as it is written: its directive and a
/// line feed.
pub open spec fn directive_line(controller: Controller) -> Seq<u8> {
    directive_word(controller).push(LINE_FEED)
}

/// What the delegated controllers read as: their names, `cpuset` first, with
/// a space between.
pub open spec fn controllers_text(set: Set<Controller>) -> Seq<u8> {
    let cpuset = if set.contains(Controller::Cpuset) {
        ascii("cpuset"@)
    } else {
        Seq::empty()
    };
    let gap = if set.contains(Controller::Cpu) && set.contains(Controller::Cpuset) {
        seq![SPACE]
    } else {
        Seq::empty()
    };
    let cpu = if set.contains(Controller::Cpu) {
        ascii("cpu"@)
    } else {
        Seq::empty()
    };
    (cpuset + gap + cpu).push(LINE_FEED)
}

/// The quota a word asks for: `max` for none, else a decimal numeral above
/// zero. The outer `None` says that the word is neither.
pub open spec fn parse_quota(word: Seq<u8>) -> Option<Option<u64>> {
    if word == ascii("max"@) {
        Some(None)
    } else {
        match parse_decimal(word) {
            Some(quota) => if quota > 0 {
                Some(Some(quota))
            } else {
                None
            },
            None => None,
        }
    }
}

/// The ceiling a written value asks for: a quota, a space and a period above
/// zero.
pub open spec fn parse_ceiling(value: Seq<u8>) -> Option<CpuCeiling> {
    let line = trim_line(value);
    if word_end(line) >= line.len() {
        None
    } else {
        match (parse_quota(first_word(line)), parse_decimal(after_word(line))) {
            (Some(quota), Some(period)) => if period > 0 {
                Some(CpuCeiling { quota, period })
            } else {
                None
            },
            _ => None,
        }
    }
}

/// The quota, a space and the period.
pub open spec fn ceiling_text(ceiling: CpuCeiling) -> Seq<u8> {
    let quota = match ceiling.quota {
        Some(quota) => decimal(quota as nat),
        None => ascii("max"@),
    };
    quota + seq![SPACE] + decimal(ceiling.period as nat)
}

/// The first word ends within the bytes.
pub proof fn word_end_bounds(bytes: Seq<u8>)
    ensures
        0 <= word_end(bytes) <= bytes.len(),
    decreases bytes.len(),
{
    if bytes.len() > 0 && bytes[0] != SPACE {
        word_end_bounds(bytes.skip(1));
    }
}

/// A word without a space ends where the bytes end.
pub proof fn word_end_without_space(bytes: Seq<u8>)
    requires
        forall|i: int| 0 <= i < bytes.len() ==> bytes[i] != SPACE,
    ensures
        word_end(bytes) == bytes.len(),
    decreases bytes.len(),
{
    if bytes.len() > 0 {
        word_end_without_space(bytes.skip(1));
    }
}

/// A word without a space, then a space, then more: the first word is that
/// word and the rest is what follows the space.
pub proof fn word_end_before_space(word: Seq<u8>, rest: Seq<u8>)
    requires
        forall|i: int| 0 <= i < word.len() ==> word[i] != SPACE,
    ensures
        word_end(word + seq![SPACE] + rest) == word.len(),
        first_word(word + seq![SPACE] + rest) == word,
        after_word(word + seq![SPACE] + rest) == rest,
    decreases word.len(),
{
    let whole = word + seq![SPACE] + rest;
    if word.len() > 0 {
        word_end_before_space(word.skip(1), rest);
        assert(whole.skip(1) =~= word.skip(1) + seq![SPACE] + rest);
    }
}

/// The value without the line feed that may end it.
pub fn trim(value: &[u8]) -> (line: &[u8])
    ensures
        line@ == trim_line(value@),
{
    let len: usize = value.len();
    if len > 0 && value[len - 1] == LINE_FEED {
        slice_subrange(value, 0, len - 1)
    } else {
        value
    }
}

/// The place where the word that starts at `from` ends.
pub fn scan_word(bytes: &[u8], from: usize) -> (end: usize)
    requires
        from <= bytes@.len(),
    ensures
        from <= end <= bytes@.len(),
        end - from == word_end(bytes@.skip(from as int)),
{
    let mut end: usize = from;
    while end < bytes.len() && bytes[end] != SPACE
        invariant
            from <= end <= bytes@.len(),
            word_end(bytes@.skip(from as int)) == (end - from) + word_end(
                bytes@.skip(end as int),
            ),
        decreases bytes@.len() - end,
    {
        assert(bytes@.skip(end as int).skip(1) =~= bytes@.skip(end + 1));
        end += 1;
    }
    end
}

/// The value that asks for threaded mode.
pub fn encode_threaded() -> (value: Vec<u8>)
    ensures
        value@ == threaded_text(),
{
    proof {
        reveal_strlit("threaded");
    }
    let mut value: Vec<u8> = Vec::new();
    append_bytes(&mut value, ascii_bytes("threaded"));
    value
}

/// Decides [`names_threaded`].
pub fn decode_threaded(value: &[u8]) -> (threaded: bool)
    ensures
        threaded == names_threaded(value@),
{
    proof {
        reveal_strlit("threaded");
    }
    bytes_equal(trim(value), ascii_bytes("threaded"))
}

/// What the type attribute reads as.
pub fn encode_type(threaded: bool) -> (value: Vec<u8>)
    ensures
        value@ == type_text(threaded),
{
    proof {
        reveal_strlit("threaded");
        reveal_strlit("domain");
    }
    let mut value: Vec<u8> = Vec::new();
    if threaded {
        append_bytes(&mut value, ascii_bytes("threaded"));
    } else {
        append_bytes(&mut value, ascii_bytes("domain"));
    }
    value.push(LINE_FEED);
    value
}

/// Reads a weight as [`parse_weight`] says.
pub fn decode_weight(value: &[u8]) -> (weight: Option<u32>)
    ensures
        weight == parse_weight(value@),
{
    match decode_decimal(trim(value)) {
        Some(number) => if number >= MIN_WEIGHT as u64 && number <= MAX_WEIGHT as u64 {
            Some(number as u32)
        } else {
            None
        },
        None => None,
    }
}

/// Reads a thread identifier as [`parse_thread_id`] says.
pub fn decode_thread_id(value: &[u8]) -> (thread: Option<u64>)
    ensures
        thread == parse_thread_id(value@),
{
    decode_decimal(trim(value))
}

/// Reads one word of a delegation as [`directive`] says.
pub fn decode_directive(word: &[u8]) -> (controller: Option<Controller>)
    ensures
        controller == directive(word@),
{
    proof {
        reveal_strlit("+cpu");
        reveal_strlit("+cpuset");
    }
    if bytes_equal(word, ascii_bytes("+cpu")) {
        Some(Controller::Cpu)
    } else if bytes_equal(word, ascii_bytes("+cpuset")) {
        Some(Controller::Cpuset)
    } else {
        None
    }
}

/// What is still to come of a delegation once `found` has been read.
pub open spec fn with_found(found: Set<Controller>, others: Option<Set<Controller>>) -> Option<
    Set<Controller>,
> {
    match others {
        Some(rest) => Some(rest.union(found)),
        None => None,
    }
}

/// Reads a delegation as [`parse_directives`] says.
pub fn decode_directives(value: &[u8]) -> (set: Option<ControllerSet>)
    ensures
        match set {
            Some(found) => parse_directives(value@) == Some(found@),
            None => parse_directives(value@) is None,
        },
{
    let line = trim(value);
    let mut found = ControllerSet::empty();
    let mut from: usize = 0;
    assert(line@.skip(0) =~= line@);
    while from < line.len()
        invariant
            from <= line@.len(),
            line@ == trim_line(value@),
            parse_directive_words(line@) == with_found(
                found@,
                parse_directive_words(line@.skip(from as int)),
            ),
        decreases line@.len() - from,
    {
        let end: usize = scan_word(line, from);
        let word = slice_subrange(line, from, end);
        let ghost tail = line@.skip(from as int);
        assert(word@ =~= first_word(tail));
        match decode_directive(word) {
            None => {
                return None;
            },
            Some(controller) => {
                found = found.with(controller);
                let next: usize = if end == line.len() {
                    end
                } else {
                    end + 1
                };
                assert(after_word(tail) =~= line@.skip(next as int));
                from = next;
            },
        }
    }
    Some(found)
}

/// Writes the delegation of `controller` as [`directive_line`] says.
pub fn encode_directive(controller: Controller) -> (value: Vec<u8>)
    ensures
        value@ == directive_line(controller),
{
    proof {
        reveal_strlit("+cpu");
        reveal_strlit("+cpuset");
    }
    let mut value: Vec<u8> = Vec::new();
    match controller {
        Controller::Cpu => append_bytes(&mut value, ascii_bytes("+cpu")),
        Controller::Cpuset => append_bytes(&mut value, ascii_bytes("+cpuset")),
    }
    value.push(LINE_FEED);
    value
}

/// What the delegated controllers read as.
pub fn encode_controllers(set: ControllerSet) -> (value: Vec<u8>)
    ensures
        value@ == controllers_text(set@),
{
    proof {
        reveal_strlit("cpu");
        reveal_strlit("cpuset");
    }
    let mut value: Vec<u8> = Vec::new();
    if set.contains(Controller::Cpuset) {
        append_bytes(&mut value, ascii_bytes("cpuset"));
    }
    if set.contains(Controller::Cpu) && set.contains(Controller::Cpuset) {
        value.push(SPACE);
    }
    if set.contains(Controller::Cpu) {
        append_bytes(&mut value, ascii_bytes("cpu"));
    }
    value.push(LINE_FEED);
    value
}

/// Reads a quota as [`parse_quota`] says.
pub fn decode_quota(word: &[u8]) -> (quota: Option<Option<u64>>)
    ensures
        quota == parse_quota(word@),
{
    proof {
        reveal_strlit("max");
    }
    if bytes_equal(word, ascii_bytes("max")) {
        Some(None)
    } else {
        match decode_decimal(word) {
            Some(number) => if number > 0 {
                Some(Some(number))
            } else {
                None
            },
            None => None,
        }
    }
}

/// Reads a ceiling as [`parse_ceiling`] says.
pub fn decode_ceiling(value: &[u8]) -> (ceiling: Option<CpuCeiling>)
    ensures
        ceiling == parse_ceiling(value@),
{
    let line = trim(value);
    assert(line@.skip(0) =~= line@);
    let end: usize = scan_word(line, 0);
    if end >= line.len() {
        return None;
    }
    let quota_word = slice_subrange(line, 0, end);
    let period_word = slice_subrange(line, end + 1, line.len());
    match (decode_quota(quota_word), decode_decimal(period_word)) {
        (Some(quota), Some(period)) => if period > 0 {
            Some(CpuCeiling { quota, period })
        } else {
            None
        },
        _ => None,
    }
}

/// Writes a ceiling as [`ceiling_text`] says.
pub fn encode_ceiling(ceiling: &CpuCeiling) -> (value: Vec<u8>)
    ensures
        value@ == ceiling_text(*ceiling),
{
    proof {
        reveal_strlit("max");
    }
    let mut value: Vec<u8> = match ceiling.quota {
        Some(quota) => encode_decimal(quota),
        None => {
            let mut word: Vec<u8> = Vec::new();
            append_bytes(&mut word, ascii_bytes("max"));
            word
        },
    };
    value.push(SPACE);
    let period = encode_decimal(ceiling.period);
    append_bytes(&mut value, period.as_slice());
    value
}

/// The numeral of a weight within the range reads back as that weight.
pub proof fn weight_round_trip(weight: u32)
    requires
        MIN_WEIGHT <= weight <= MAX_WEIGHT,
    ensures
        parse_weight(decimal(weight as nat)) == Some(weight),
{
    decimal_round_trip(weight as u64);
}

/// The numeral of a thread identifier reads back as that identifier.
pub proof fn thread_id_round_trip(thread: u64)
    ensures
        parse_thread_id(decimal(thread as nat)) == Some(thread),
{
    decimal_round_trip(thread);
}

/// The value that asks for threaded mode is read as asking for it.
pub proof fn threaded_round_trip()
    ensures
        names_threaded(threaded_text()),
{
    reveal_strlit("threaded");
}

/// The written delegation of a controller reads back as asking for that
/// controller and for no other.
pub proof fn directive_round_trip(controller: Controller)
    ensures
        parse_directives(directive_line(controller)) == Some(
            Set::<Controller>::empty().insert(controller),
        ),
{
    reveal_strlit("+cpu");
    reveal_strlit("+cpuset");
    let word = directive_word(controller);
    assert(directive_line(controller).drop_last() =~= word);
    word_end_without_space(word);
    assert(first_word(word) =~= word);
    assert(parse_directive_words(Seq::empty()) == Some(Set::<Controller>::empty()));
}

/// A written ceiling that can be set reads back as itself.
pub proof fn ceiling_round_trip(ceiling: CpuCeiling)
    requires
        ceiling.valid(),
    ensures
        parse_ceiling(ceiling_text(ceiling)) == Some(ceiling),
{
    reveal_strlit("max");
    let max = ascii("max"@);
    let quota = match ceiling.quota {
        Some(quota) => decimal(quota as nat),
        None => max,
    };
    let period = decimal(ceiling.period as nat);
    decimal_round_trip(ceiling.period);
    if let Some(amount) = ceiling.quota {
        decimal_round_trip(amount);
    }
    word_end_before_space(quota, period);
}

} // verus!
