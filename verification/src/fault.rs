//! Deterministic fault injection for chaos tests.
//!
//! Faults are described by a list such as
//! `processor.transient=every:3,fraud.hang=once`: for each named point a mode.
//!
//! - `always`, `never`
//! - `once`: the first call fails
//! - `every:N`: the Nth, 2Nth, ... call fails
//! - `rate:P`: with a correlation id, the id alone decides whether a call fails;
//!   without one the calls are counted, and a fraction P of them fails, spread
//!   evenly
//!
//! What cannot be read is left out, and of two modes for one point the later
//! one holds.
use vstd::prelude::*;
use vstd::string::*;

use crate::ident::Uuid;
use crate::text::{
    find_char, has_prefix, is_core, law_first_separator_splits, law_trimmed_text_stays,
    law_trimming_takes_white_space_only, law_u32_reads_back, nat_text, parse_u32, same_text,
    skip_chars, space, split_point, take_chars, trim, trimmed, u32_of,
};

verus! {

/// The number of samples that a rate is measured in: 2^53.
pub const SAMPLES: u64 = 0x20_0000_0000_0000;

/// The fraction of calls that fail.
#[derive(Debug, Clone, Copy, PartialEq, Eq, Structural)]
pub enum Rate {
    /// None of them, without looking at the call.
    Zero,
    /// All of them, without looking at the call.
    One,
    /// So many out of [`SAMPLES`].
    Below(u64),
}

impl Rate {
    /// Whether the rate is a fraction: no more than all calls fail.
    pub open spec fn usable(self) -> bool {
        self matches Rate::Below(limit) ==> limit <= SAMPLES
    }

    /// Whether the rate is a fraction.
    pub fn is_usable(&self) -> (r: bool)
        ensures
            r == self.usable(),
    {
        match *self {
            Rate::Below(limit) => limit <= SAMPLES,
            _ => true,
        }
    }
}

/// How many of the first `calls` calls are due to fail when `limit` out of
/// [`SAMPLES`] calls are to fail.
pub open spec fn due(limit: u64, calls: int) -> int {
    (calls * limit) / (SAMPLES as int)
}

/// When a point fails.
#[derive(Debug, Clone, Copy, PartialEq, Eq, Structural)]
pub enum Rule {
    Always,
    Never,
    Once,
    Every(u32),
    Rate(Rate),
}

impl Rule {
    /// Whether the rule can be followed: there is no zeroth call, and no more
    /// than all calls fail.
    pub open spec fn usable(self) -> bool {
        match self {
            Rule::Every(n) => n > 0,
            Rule::Rate(rate) => rate.usable(),
            _ => true,
        }
    }

    /// Whether the rule counts the calls of its point. A rate counts them only
    /// when there is no correlation id.
    pub open spec fn counts(self, hash: Option<u64>) -> bool {
        match self {
            Rule::Always => false,
            Rule::Never => false,
            Rule::Once => true,
            Rule::Every(_) => true,
            Rule::Rate(Rate::Below(_)) => hash is None,
            Rule::Rate(_) => false,
        }
    }

    /// Whether a call fails: `call` is its number, from 1, and `hash` stems from
    /// its correlation id.
    pub open spec fn fires(self, call: int, hash: Option<u64>) -> bool {
        match self {
            Rule::Always => true,
            Rule::Never => false,
            Rule::Once => call == 1,
            Rule::Every(n) => call % (n as int) == 0,
            Rule::Rate(Rate::Zero) => false,
            Rule::Rate(Rate::One) => true,
            Rule::Rate(Rate::Below(limit)) => match hash {
                Some(h) => h / 2048 < limit,
                None => due(limit, call - 1) < due(limit, call),
            },
        }
    }
}

/// The mode of one entry: a rule, or the text of a rate, which is a number with
/// a fraction.
#[derive(Debug)]
pub enum Mode<S = String> {
    Rule(Rule),
    RateText(S),
}

impl View for Mode<String> {
    type V = Mode<Seq<char>>;

    open spec fn view(&self) -> Mode<Seq<char>> {
        match self {
            Mode::Rule(rule) => Mode::Rule(*rule),
            Mode::RateText(text) => Mode::RateText(text@),
        }
    }
}

/// One entry of a fault description.
#[derive(Debug)]
pub struct Directive<S = String> {
    pub point: S,
    pub mode: Mode<S>,
}

impl View for Directive<String> {
    type V = Directive<Seq<char>>;

    open spec fn view(&self) -> Directive<Seq<char>> {
        Directive { point: self.point@, mode: self.mode@ }
    }
}

/// The mode that a value denotes.
pub open spec fn mode_of(value: Seq<char>) -> Option<Mode<Seq<char>>> {
    if value == "always"@ {
        Some(Mode::Rule(Rule::Always))
    } else if value == "never"@ {
        Some(Mode::Rule(Rule::Never))
    } else if value == "once"@ {
        Some(Mode::Rule(Rule::Once))
    } else if "every:"@.is_prefix_of(value) {
        match u32_of(value.skip(6)) {
            Some(n) => if n > 0 {
                Some(Mode::Rule(Rule::Every(n)))
            } else {
                None
            },
            None => None,
        }
    } else if "rate:"@.is_prefix_of(value) {
        Some(Mode::RateText(value.skip(5)))
    } else {
        None
    }
}

/// The entry that one part of a description denotes: a point and a mode with an
/// equals sign between them.
pub open spec fn directive_of(part: Seq<char>) -> Option<Directive<Seq<char>>> {
    let entry = trimmed(part);
    let cut = split_point(entry, '=');
    if cut == entry.len() {
        None
    } else {
        match mode_of(trimmed(entry.skip(cut as int + 1))) {
            Some(mode) => Some(Directive { point: trimmed(entry.take(cut as int)), mode }),
            None => None,
        }
    }
}

/// An optional entry as a sequence of none or one.
pub open spec fn listed(directive: Option<Directive<Seq<char>>>) -> Seq<Directive<Seq<char>>> {
    match directive {
        Some(d) => seq![d],
        None => Seq::empty(),
    }
}

/// The entries of a description, whose parts are separated by commas.
pub open spec fn directives_of(raw: Seq<char>) -> Seq<Directive<Seq<char>>>
    decreases raw.len(),
{
    let cut = split_point(raw, ',');
    if cut >= raw.len() {
        listed(directive_of(raw))
    } else {
        listed(directive_of(raw.take(cut as int))) + directives_of(raw.skip(cut as int + 1))
    }
}

pub open spec fn directives_view(directives: Seq<Directive<String>>) -> Seq<Directive<Seq<char>>> {
    directives.map_values(|d: Directive<String>| d@)
}

/// The texts of the rates among some entries, in order.
pub open spec fn rate_texts_of(directives: Seq<Directive<Seq<char>>>) -> Seq<Seq<char>>
    decreases directives.len(),
{
    if directives.len() == 0 {
        Seq::empty()
    } else {
        let before = rate_texts_of(directives.drop_last());
        match directives.last().mode {
            Mode::RateText(text) => before.push(text),
            Mode::Rule(_) => before,
        }
    }
}

/// The rules that some entries amount to, given what their rates were read as:
/// `rates[i]` belongs to the `i`th rate text.
pub open spec fn rules_of(
    directives: Seq<Directive<Seq<char>>>,
    rates: Seq<Option<Rate>>,
) -> Map<Seq<char>, Rule>
    decreases directives.len(),
{
    if directives.len() == 0 {
        Map::empty()
    } else {
        let earlier = directives.drop_last();
        let rules = rules_of(earlier, rates);
        let next = rate_texts_of(earlier).len() as int;
        match directives.last().mode {
            Mode::Rule(rule) => rules.insert(directives.last().point, rule),
            Mode::RateText(_) => if next < rates.len() && rates[next] is Some
                && rates[next]->0.usable() {
                rules.insert(directives.last().point, Rule::Rate(rates[next]->0))
            } else {
                rules
            },
        }
    }
}

fn parse_mode(value: &str) -> (r: Option<Mode>)
    ensures
        (match r {
            Some(mode) => Some(mode@),
            None => None,
        }) == mode_of(value@),
        r matches Some(Mode::Rule(rule)) ==> rule.usable(),
{
    proof {
        reveal_strlit("every:");
        reveal_strlit("rate:");
    }
    if same_text(value, "always") {
        Some(Mode::Rule(Rule::Always))
    } else if same_text(value, "never") {
        Some(Mode::Rule(Rule::Never))
    } else if same_text(value, "once") {
        Some(Mode::Rule(Rule::Once))
    } else if has_prefix(value, "every:") {
        match parse_u32(skip_chars(value, 6)) {
            Some(n) => if n > 0 {
                Some(Mode::Rule(Rule::Every(n)))
            } else {
                None
            },
            None => None,
        }
    } else if has_prefix(value, "rate:") {
        Some(Mode::RateText(skip_chars(value, 5).to_string()))
    } else {
        None
    }
}

fn parse_directive(part: &str) -> (r: Option<Directive>)
    ensures
        (match r {
            Some(d) => Some(d@),
            None => None,
        }) == directive_of(part@),
        r matches Some(d) ==> (d.mode matches Mode::Rule(rule) ==> rule.usable()),
{
    let entry = trim(part);
    let cut: usize = find_char(entry, '=');
    if cut == entry.unicode_len() {
        return None;
    }
    let point = trim(take_chars(entry, cut)).to_string();
    match parse_mode(trim(skip_chars(entry, cut + 1))) {
        Some(mode) => Some(Directive { point, mode }),
        None => None,
    }
}

/// Reads the entries of a fault description. Parts that are empty, or that name
/// no point or no known mode, are left out.
pub fn parse_directives(raw: &str) -> (r: Vec<Directive>)
    ensures
        directives_view(r@) == directives_of(raw@),
        forall|i: int|
            0 <= i < r@.len() ==> ((#[trigger] r@[i]).mode matches Mode::Rule(rule)
                ==> rule.usable()),
{
    let mut found: Vec<Directive> = Vec::new();
    let mut rest: &str = raw;
    let mut done = false;
    assert(directives_view(found@) + directives_of(rest@) =~= directives_of(raw@));
    while !done
        invariant
            directives_view(found@) + (if done {
                Seq::empty()
            } else {
                directives_of(rest@)
            }) == directives_of(raw@),
            forall|i: int|
                0 <= i < found@.len() ==> ((#[trigger] found@[i]).mode matches Mode::Rule(rule)
                    ==> rule.usable()),
        decreases (if done {
            0int
        } else {
            1 + rest@.len() as int
        }),
    {
        let cut: usize = find_char(rest, ',');
        let ghost before = found@;
        let ghost tail = rest@;
        let part = take_chars(rest, cut);
        match parse_directive(part) {
            Some(d) => {
                found.push(d);
                assert(directives_view(found@) =~= directives_view(before) + listed(
                    directive_of(part@),
                ));
            },
            None => {
                assert(directives_view(found@) =~= directives_view(before) + listed(
                    directive_of(part@),
                ));
            },
        }
        if cut == rest.unicode_len() {
            assert(part@ =~= tail);
            assert(directives_view(found@) + Seq::<Directive<Seq<char>>>::empty()
                =~= directives_view(before) + directives_of(tail));
            done = true;
        } else {
            rest = skip_chars(rest, cut + 1);
            assert(directives_view(found@) + directives_of(rest@) =~= directives_view(before)
                + directives_of(tail));
        }
    }
    assert(directives_view(found@) + Seq::<Directive<Seq<char>>>::empty() =~= directives_view(
        found@,
    ));
    found
}

/// The texts of the rates in a fault description, in order, to be read as
/// numbers.
pub fn rate_texts(raw: &str) -> (r: Vec<String>)
    ensures
        r@.map_values(|s: String| s@) == rate_texts_of(directives_of(raw@)),
{
    let directives = parse_directives(raw);
    let mut texts: Vec<String> = Vec::new();
    let ghost all = directives_view(directives@);
    assert(texts@.map_values(|s: String| s@) =~= rate_texts_of(all.take(0)));
    let mut i: usize = 0;
    while i < directives.len()
        invariant
            i <= directives@.len(),
            all == directives_view(directives@),
            texts@.map_values(|s: String| s@) == rate_texts_of(all.take(i as int)),
        decreases directives@.len() - i,
    {
        let ghost before = texts@;
        assert(all.take(i + 1).drop_last() =~= all.take(i as int));
        assert(all.take(i + 1).last() == directives@[i as int]@);
        match &directives[i].mode {
            Mode::RateText(text) => {
                texts.push(text.clone());
                assert(texts@.map_values(|s: String| s@) =~= before.map_values(
                    |s: String| s@,
                ).push(text@));
            },
            Mode::Rule(_) => {},
        }
        i = i + 1;
    }
    assert(all.take(i as int) =~= all);
    texts
}

/// The rules of all points.
#[derive(Debug)]
pub struct FaultConfig {
    entries: Vec<(String, Rule)>,
}

spec fn entries_map(entries: Seq<(String, Rule)>) -> Map<Seq<char>, Rule>
    decreases entries.len(),
{
    if entries.len() == 0 {
        Map::empty()
    } else {
        entries_map(entries.drop_last()).insert(entries.last().0@, entries.last().1)
    }
}

impl View for FaultConfig {
    type V = Map<Seq<char>, Rule>;

    closed spec fn view(&self) -> Map<Seq<char>, Rule> {
        entries_map(self.entries@)
    }
}

impl FaultConfig {
    #[verifier::type_invariant]
    spec fn usable(self) -> bool {
        forall|i: int| 0 <= i < self.entries@.len() ==> (#[trigger] self.entries@[i]).1.usable()
    }

    /// No faults.
    pub fn none() -> (r: FaultConfig)
        ensures
            r@ == Map::<Seq<char>, Rule>::empty(),
    {
        FaultConfig { entries: Vec::new() }
    }

    /// Reads a fault description. `rates` holds what the texts that
    /// [`rate_texts`] gives were read as; an entry whose rate was not read, or is
    /// no fraction, is left out.
    pub fn parse(raw: &str, rates: &Vec<Option<Rate>>) -> (r: FaultConfig)
        ensures
            r@ == rules_of(directives_of(raw@), rates@),
    {
        let directives = parse_directives(raw);
        let ghost all = directives_view(directives@);
        let mut entries: Vec<(String, Rule)> = Vec::new();
        let mut next: usize = 0;
        let mut i: usize = 0;
        assert(all.take(0) =~= Seq::empty());
        while i < directives.len()
            invariant
                i <= directives@.len(),
                all == directives_view(directives@),
                next == rate_texts_of(all.take(i as int)).len(),
                next <= i,
                entries_map(entries@) == rules_of(all.take(i as int), rates@),
                forall|j: int| 0 <= j < entries@.len() ==> (#[trigger] entries@[j]).1.usable(),
                forall|j: int|
                    0 <= j < directives@.len() ==> ((#[trigger] directives@[j]).mode matches
                        Mode::Rule(rule) ==> rule.usable()),
            decreases directives@.len() - i,
        {
            let ghost before = entries@;
            assert(all.take(i + 1).drop_last() =~= all.take(i as int));
            assert(all.take(i + 1).last() == directives@[i as int]@);
            match &directives[i].mode {
                Mode::Rule(rule) => {
                    entries.push((directives[i].point.clone(), *rule));
                    assert(entries@.drop_last() =~= before);
                },
                Mode::RateText(_) => {
                    if next < rates.len() {
                        match rates[next] {
                            Some(rate) => {
                                if rate.is_usable() {
                                    entries.push((directives[i].point.clone(), Rule::Rate(rate)));
                                    assert(entries@.drop_last() =~= before);
                                }
                            },
                            None => {},
                        }
                    }
                    next = next + 1;
                },
            }
            i = i + 1;
        }
        assert(all.take(i as int) =~= all);
        FaultConfig { entries }
    }

    /// The rule of a point, if it has one.
    pub fn rule(&self, point: &str) -> (r: Option<Rule>)
        ensures
            r is Some <==> self@.contains_key(point@),
            r matches Some(rule) ==> rule == self@[point@] && rule.usable(),
    {
        proof {
            use_type_invariant(self);
        }
        let mut i: usize = self.entries.len();
        assert(self.entries@.take(i as int) =~= self.entries@);
        while i > 0
            invariant
                i <= self.entries@.len(),
                self@.contains_key(point@) == entries_map(
                    self.entries@.take(i as int),
                ).contains_key(point@),
                self@.contains_key(point@) ==> self@[point@] == entries_map(
                    self.entries@.take(i as int),
                )[point@],
                forall|j: int|
                    0 <= j < self.entries@.len() ==> (#[trigger] self.entries@[j]).1.usable(),
            decreases i,
        {
            assert(self.entries@.take(i as int).drop_last() =~= self.entries@.take(i - 1));
            if same_text(self.entries[i - 1].0.as_str(), point) {
                return Some(self.entries[i - 1].1);
            }
            i = i - 1;
        }
        None
    }
}

/// How often each point was called.
#[derive(Debug)]
pub struct CallCounters {
    entries: Vec<(String, u64)>,
}

spec fn count_in(entries: Seq<(String, u64)>, point: Seq<char>) -> u64
    decreases entries.len(),
{
    if entries.len() == 0 {
        0
    } else if entries[0].0@ == point {
        entries[0].1
    } else {
        count_in(entries.drop_first(), point)
    }
}

proof fn lemma_count_found(entries: Seq<(String, u64)>, i: int, point: Seq<char>)
    requires
        0 <= i < entries.len(),
        entries[i].0@ == point,
        forall|j: int| 0 <= j < i ==> (#[trigger] entries[j]).0@ != point,
    ensures
        count_in(entries, point) == entries[i].1,
    decreases i,
{
    if i > 0 {
        assert(entries[0].0@ != point);
        lemma_count_found(entries.drop_first(), i - 1, point);
    }
}

proof fn lemma_count_absent(entries: Seq<(String, u64)>, point: Seq<char>)
    requires
        forall|j: int| 0 <= j < entries.len() ==> (#[trigger] entries[j]).0@ != point,
    ensures
        count_in(entries, point) == 0,
    decreases entries.len(),
{
    if entries.len() > 0 {
        assert(entries[0].0@ != point);
        lemma_count_absent(entries.drop_first(), point);
    }
}

/// Counting a call of one point leaves the counts of the others alone.
proof fn lemma_count_unchanged(
    before: Seq<(String, u64)>,
    after: Seq<(String, u64)>,
    i: int,
    point: Seq<char>,
)
    requires
        0 <= i <= before.len(),
        i < before.len() ==> after.len() == before.len(),
        i == before.len() ==> after.len() == before.len() + 1,
        forall|j: int| 0 <= j < after.len() && j != i ==> #[trigger] after[j] == before[j],
        i < before.len() ==> after[i].0@ == before[i].0@,
        after[i].0@ != point,
    ensures
        count_in(after, point) == count_in(before, point),
    decreases before.len(),
{
    if before.len() == 0 {
        assert(count_in(after.drop_first(), point) == 0);
    } else if i == 0 {
        assert(after.drop_first() =~= before.drop_first());
    } else {
        assert(after[0] == before[0]);
        assert forall|j: int| 0 <= j < after.drop_first().len() && j != i - 1 implies
            #[trigger] after.drop_first()[j] == before.drop_first()[j] by {
            assert(after[j + 1] == before[j + 1]);
        }
        lemma_count_unchanged(before.drop_first(), after.drop_first(), i - 1, point);
    }
}

impl CallCounters {
    /// How often a point was called.
    pub closed spec fn count(self, point: Seq<char>) -> u64 {
        count_in(self.entries@, point)
    }

    /// Counters for points that were never called.
    pub fn new() -> (r: CallCounters)
        ensures
            forall|point: Seq<char>| r.count(point) == 0,
    {
        CallCounters { entries: Vec::new() }
    }

    /// How often a point was called.
    pub fn calls(&self, point: &str) -> (r: u64)
        ensures
            r == self.count(point@),
    {
        let mut i: usize = 0;
        while i < self.entries.len()
            invariant
                i <= self.entries@.len(),
                forall|j: int| 0 <= j < i ==> (#[trigger] self.entries@[j]).0@ != point@,
            decreases self.entries@.len() - i,
        {
            if same_text(self.entries[i].0.as_str(), point) {
                proof {
                    lemma_count_found(self.entries@, i as int, point@);
                }
                return self.entries[i].1;
            }
            i = i + 1;
        }
        proof {
            lemma_count_absent(self.entries@, point@);
        }
        0
    }

    /// Counts one more call of a point and gives its number, from 1.
    pub fn next_call_count(&mut self, point: &str) -> (r: u64)
        requires
            old(self).count(point@) < u64::MAX,
        ensures
            r == old(self).count(point@) + 1,
            final(self).count(point@) == r,
            forall|other: Seq<char>|
                other != point@ ==> #[trigger] final(self).count(other) == old(self).count(other),
    {
        let ghost before = self.entries@;
        let mut i: usize = 0;
        while i < self.entries.len() && !same_text(self.entries[i].0.as_str(), point)
            invariant
                i <= self.entries@.len(),
                self.entries@ == before,
                forall|j: int| 0 <= j < i ==> (#[trigger] before[j]).0@ != point@,
            decreases self.entries@.len() - i,
        {
            i = i + 1;
        }
        let n: u64;
        if i < self.entries.len() {
            proof {
                lemma_count_found(before, i as int, point@);
            }
            n = self.entries[i].1 + 1;
            let name = self.entries[i].0.clone();
            self.entries.set(i, (name, n));
        } else {
            proof {
                lemma_count_absent(before, point@);
            }
            n = 1;
            self.entries.push((point.to_string(), n));
        }
        proof {
            assert forall|j: int| 0 <= j < i implies (#[trigger] self.entries@[j]).0@ != point@ by {
                assert(self.entries@[j] == before[j]);
            }
            lemma_count_found(self.entries@, i as int, point@);
            assert forall|other: Seq<char>| other != point@ implies #[trigger] count_in(
                self.entries@,
                other,
            ) == count_in(before, other) by {
                lemma_count_unchanged(before, self.entries@, i as int, other);
            }
        }
        n
    }
}

/// One step of the hash of a correlation id: byte `i` is mixed in.
pub open spec fn hash_step(x: u64, byte: u8, i: int) -> u64 {
    let mixed = x ^ ((byte as u64) << (((i % 8) * 8) as u64));
    ((mixed << 7) | (mixed >> 57)) ^ 0x9E37_79B9_7F4A_7C15u64
}

/// The hash of a sequence of bytes.
pub open spec fn stable_hash(bytes: Seq<u8>) -> u64
    decreases bytes.len(),
{
    if bytes.len() == 0 {
        0
    } else {
        hash_step(stable_hash(bytes.drop_last()), bytes.last(), bytes.len() - 1)
    }
}

/// A number that depends on the correlation id alone.
pub fn stable_u64_from_uuid(id: Uuid) -> (r: u64)
    ensures
        r == stable_hash(id.bytes()),
{
    let mut x: u64 = 0;
    let mut i: usize = 0;
    assert(id.bytes().take(0) =~= Seq::empty());
    while i < 16
        invariant
            i <= 16,
            x == stable_hash(id.bytes().take(i as int)),
        decreases 16 - i,
    {
        let byte: u8 = id.byte(i);
        let shift: u64 = ((i % 8) * 8) as u64;
        assert(id.bytes().take(i + 1).drop_last() =~= id.bytes().take(i as int));
        let mixed: u64 = x ^ ((byte as u64) << shift);
        x = ((mixed << 7u64) | (mixed >> 57u64)) ^ 0x9E37_79B9_7F4A_7C15u64;
        i = i + 1;
    }
    assert(id.bytes().take(16) =~= id.bytes());
    x
}

/// The hash of an optional correlation id.
pub open spec fn correlation_hash(id: Option<Uuid>) -> Option<u64> {
    match id {
        Some(id) => Some(stable_hash(id.bytes())),
        None => None,
    }
}

/// Decides which calls fail.
#[derive(Debug)]
pub struct FaultInjector {
    pub config: FaultConfig,
    pub counters: CallCounters,
}

impl FaultInjector {
    pub fn new(config: FaultConfig) -> (r: FaultInjector)
        ensures
            r.config == config,
            forall|point: Seq<char>| r.counters.count(point) == 0,
    {
        FaultInjector { config, counters: CallCounters::new() }
    }

    /// Whether a call of `point` counts.
    pub open spec fn counts(self, point: Seq<char>, id: Option<Uuid>) -> bool {
        self.config@.contains_key(point) && self.config@[point].counts(correlation_hash(id))
    }

    /// Whether the next call of `point` fails.
    pub open spec fn fails(self, point: Seq<char>, id: Option<Uuid>) -> bool {
        self.config@.contains_key(point) && self.config@[point].fires(
            self.counters.count(point) + 1,
            correlation_hash(id),
        )
    }

    /// What a call of `point` makes of the injector: the call is counted where
    /// it counts, and nothing else changes.
    pub open spec fn called(self, point: Seq<char>, id: Option<Uuid>, after: FaultInjector) -> bool {
        &&& after.config == self.config
        &&& after.counters.count(point) == self.counters.count(point) + (if self.counts(
            point,
            id,
        ) {
            1int
        } else {
            0
        })
        &&& forall|other: Seq<char>|
            other != point ==> #[trigger] after.counters.count(other) == self.counters.count(other)
    }
}

fn failures_due(limit: u64, calls: u64) -> (r: u128)
    ensures
        r == due(limit, calls as int),
{
    assert(0 <= calls as int * limit as int <= u64::MAX as int * u64::MAX as int)
        by (nonlinear_arith)
        requires
            0 <= calls <= u64::MAX,
            0 <= limit <= u64::MAX,
    ;
    (calls as u128 * limit as u128) / (SAMPLES as u128)
}

/// Whether this call of `point` is to fail. A point without a rule never fails.
pub fn should_fail(
    injector: &mut FaultInjector,
    point: &str,
    correlation_id: Option<Uuid>,
) -> (r: bool)
    requires
        old(injector).counts(point@, correlation_id) ==> old(injector).counters.count(point@)
            < u64::MAX,
    ensures
        r == old(injector).fails(point@, correlation_id),
        old(injector).called(point@, correlation_id, *final(injector)),
{
    let rule = match injector.config.rule(point) {
        Some(rule) => rule,
        None => {
            return false;
        },
    };
    match rule {
        Rule::Always => true,
        Rule::Never => false,
        Rule::Once => injector.counters.next_call_count(point) == 1,
        Rule::Every(n) => {
            let call: u64 = injector.counters.next_call_count(point);
            call % (n as u64) == 0
        },
        Rule::Rate(Rate::Zero) => false,
        Rule::Rate(Rate::One) => true,
        Rule::Rate(Rate::Below(limit)) => {
            match correlation_id {
                Some(id) => stable_u64_from_uuid(id) / 2048 < limit,
                None => {
                    let call: u64 = injector.counters.next_call_count(point);
                    failures_due(limit, call - 1) < failures_due(limit, call)
                },
            }
        },
    }
}

/// With `once`, the first call fails and no other.
pub proof fn law_once_fires_once(call: int, hash: Option<u64>)
    requires
        call >= 1,
    ensures
        Rule::Once.fires(call, hash) <==> call == 1,
{
}

/// With `every:N`, exactly the multiples of N fail.
pub proof fn law_every_fires_on_multiples(n: u32, k: nat, hash: Option<u64>)
    requires
        n > 0,
        k > 0,
    ensures
        Rule::Every(n).fires(k * n, hash),
        forall|call: int|
            (k - 1) * n < call < k * n ==> !#[trigger] Rule::Every(n).fires(call, hash),
{
    let m = n as int;
    assert((k * n) % m == 0) by {
        vstd::arithmetic::div_mod::lemma_mod_multiples_basic(k as int, m);
    }
    assert forall|call: int| (k - 1) * n < call < k * n implies !#[trigger] Rule::Every(n).fires(
        call,
        hash,
    ) by {
        if call % m == 0 {
            vstd::arithmetic::div_mod::lemma_fundamental_div_mod(call, m);
            let q = call / m;
            assert(call == m * q);
            assert((k - 1) * m < m * q < k * m);
            assert(k - 1 < q < k) by (nonlinear_arith)
                requires
                    (k - 1) * m < m * q < k * m,
                    m > 0,
            ;
        }
    }
}

/// How many of the first `calls` counted calls fail under a rule.
pub open spec fn failures(rule: Rule, calls: nat) -> nat
    decreases calls,
{
    if calls == 0 {
        0
    } else {
        failures(rule, (calls - 1) as nat) + (if rule.fires(calls as int, None) {
            1nat
        } else {
            0
        })
    }
}

proof fn lemma_due_grows_by_one(limit: u64, calls: int)
    requires
        limit <= SAMPLES,
        0 <= calls,
    ensures
        due(limit, calls) <= due(limit, calls + 1) <= due(limit, calls) + 1,
{
    let s = SAMPLES as int;
    let a = calls * limit;
    assert((calls + 1) * limit == a + limit) by (nonlinear_arith)
        requires
            a == calls * limit,
    ;
    assert(a / s <= (a + limit) / s <= a / s + 1) by (nonlinear_arith)
        requires
            0 <= limit <= s,
            s > 0,
    ;
}

/// Without a correlation id, a rate makes its fraction of the counted calls
/// fail: of the first n calls, n times the rate, rounded down.
pub proof fn law_rate_fails_its_fraction(limit: u64, calls: nat)
    requires
        limit <= SAMPLES,
    ensures
        failures(Rule::Rate(Rate::Below(limit)), calls) == due(limit, calls as int),
        failures(Rule::Rate(Rate::Below(limit)), calls) * SAMPLES <= calls * limit,
        calls * limit < (failures(Rule::Rate(Rate::Below(limit)), calls) + 1) * SAMPLES,
    decreases calls,
{
    let s = SAMPLES as int;
    let n = calls * limit;
    if calls > 0 {
        law_rate_fails_its_fraction(limit, (calls - 1) as nat);
        lemma_due_grows_by_one(limit, calls - 1);
    } else {
        assert(n == 0) by (nonlinear_arith)
            requires
                n == calls * limit,
                calls == 0,
        ;
        assert(0int * limit == 0) by (nonlinear_arith);
    }
    assert((n / s) * s <= n < (n / s + 1) * s) by (nonlinear_arith)
        requires
            s > 0,
    ;
}

/// A rate decides by the correlation id alone where there is one: two calls
/// with the same id fail alike, whatever was called before, and are not
/// counted.
pub proof fn law_rate_is_stable_per_correlation_id(rate: Rate, id: Uuid, call: int, other: int)
    ensures
        Rule::Rate(rate).fires(call, correlation_hash(Some(id))) == Rule::Rate(rate).fires(
            other,
            correlation_hash(Some(id)),
        ),
        !Rule::Rate(rate).counts(correlation_hash(Some(id))),
{
}

/// `always`, and the rate of all, fails every call; `never`, and the rate of none,
/// fails no call. None of them counts calls.
pub proof fn law_always_and_never(call: int, hash: Option<u64>)
    ensures
        Rule::Always.fires(call, hash),
        Rule::Rate(Rate::One).fires(call, hash),
        !Rule::Never.fires(call, hash),
        !Rule::Rate(Rate::Zero).fires(call, hash),
        !Rule::Always.counts(hash),
        !Rule::Never.counts(hash),
        !Rule::Rate(Rate::One).counts(hash),
        !Rule::Rate(Rate::Zero).counts(hash),
{
}

/// With a correlation id, a rate fails the ids whose hash lies in the lowest part
/// of all hashes, as large as the rate says.
pub proof fn law_rate_takes_the_lowest_hashes(limit: u64, call: int, hash: u64)
    ensures
        Rule::Rate(Rate::Below(limit)).fires(call, Some(hash)) <==> (hash as int) < limit * 2048,
{
    let h = hash as int;
    let l = limit as int;
    assert(h / 2048 < l <==> h < l * 2048) by (nonlinear_arith)
        requires
            h >= 0,
            l >= 0,
    ;
}

/// A rule can be followed unless it asks for every zeroth call or for more than all
/// calls.
pub proof fn law_usable_rules(n: u32, limit: u64)
    ensures
        Rule::Every(n).usable() <==> n > 0,
        Rule::Rate(Rate::Below(limit)).usable() <==> limit <= 0x20_0000_0000_0000,
        Rule::Always.usable() && Rule::Never.usable() && Rule::Once.usable(),
        Rule::Rate(Rate::Zero).usable() && Rule::Rate(Rate::One).usable(),
{
}

/// What a call of a point comes to, by its rule and by how often it was called: a
/// point without a rule never fails, `once` fails the first call, `every:N` the
/// calls whose number is a multiple of N.
pub proof fn law_rule_and_count_decide(
    injector: FaultInjector,
    point: Seq<char>,
    id: Option<Uuid>,
    n: u32,
)
    ensures
        !injector.config@.contains_key(point) ==> !injector.fails(point, id) && !injector.counts(
            point,
            id,
        ),
        injector.config@.contains_key(point) && injector.config@[point] == Rule::Always
            ==> injector.fails(point, id) && !injector.counts(point, id),
        injector.config@.contains_key(point) && injector.config@[point] == Rule::Never
            ==> !injector.fails(point, id) && !injector.counts(point, id),
        injector.config@.contains_key(point) && injector.config@[point] == Rule::Once ==> (
        injector.fails(point, id) <==> injector.counters.count(point) == 0) && injector.counts(
            point,
            id,
        ),
        injector.config@.contains_key(point) && injector.config@[point] == Rule::Every(n) && n > 0
            ==> (injector.fails(point, id) <==> (injector.counters.count(point) + 1) % (n as int)
            == 0) && injector.counts(point, id),
{
}

/// With a rate, a call that has a correlation id goes by the id alone and is not
/// counted; one without is counted, and fails where the number of failures that are
/// due grows.
pub proof fn law_rate_decides(
    injector: FaultInjector,
    point: Seq<char>,
    id: Uuid,
    limit: u64,
)
    requires
        injector.config@.contains_key(point),
        injector.config@[point] == Rule::Rate(Rate::Below(limit)),
    ensures
        injector.fails(point, Some(id)) <==> (stable_hash(id.bytes()) as int) < limit * 2048,
        !injector.counts(point, Some(id)),
        injector.counts(point, None),
        injector.fails(point, None) <==> (injector.counters.count(point) * limit) / 0x20_0000_0000_0000
            < ((injector.counters.count(point) + 1) * limit) / 0x20_0000_0000_0000,
{
    law_rate_takes_the_lowest_hashes(limit, 1, stable_hash(id.bytes()));
}

/// Calls are counted one by one: after a call that counts, the point was called
/// once more, other points were not, and the rules stay. So `once` does not fail
/// again.
pub proof fn law_calls_are_counted_one_by_one(
    before: FaultInjector,
    after: FaultInjector,
    point: Seq<char>,
    other: Seq<char>,
    id: Option<Uuid>,
)
    requires
        before.called(point, id, after),
        other != point,
    ensures
        after.config == before.config,
        before.counts(point, id) ==> after.counters.count(point) == before.counters.count(point) + 1,
        !before.counts(point, id) ==> after.counters.count(point) == before.counters.count(point),
        after.counters.count(other) == before.counters.count(other),
        after.fails(other, id) == before.fails(other, id),
        before.config@.contains_key(point) && before.config@[point] == Rule::Once ==> !after.fails(
            point,
            id,
        ),
{
}

/// The modes as they are written: the three words, a number behind `every:`, and
/// any text behind `rate:`.
pub proof fn law_modes_are_read_as_written(n: u32, text: Seq<char>)
    ensures
        mode_of("always"@) == Some(Mode::<Seq<char>>::Rule(Rule::Always)),
        mode_of("never"@) == Some(Mode::<Seq<char>>::Rule(Rule::Never)),
        mode_of("once"@) == Some(Mode::<Seq<char>>::Rule(Rule::Once)),
        n > 0 ==> mode_of("every:"@ + nat_text(n as nat)) == Some(
            Mode::<Seq<char>>::Rule(Rule::Every(n)),
        ),
        n == 0 ==> mode_of("every:"@ + nat_text(n as nat)) is None,
        mode_of("rate:"@ + text) == Some(Mode::RateText(text)),
{
    lemma_mode_words();
    law_u32_reads_back(n, text);
    let every = "every:"@ + nat_text(n as nat);
    let rate = "rate:"@ + text;
    assert(every.skip(6) =~= nat_text(n as nat));
    assert(rate.skip(5) =~= text);
    assert("every:"@.is_prefix_of(every)) by {
        assert(every.subrange(0, 6) =~= "every:"@);
    }
    assert("rate:"@.is_prefix_of(rate)) by {
        assert(rate.subrange(0, 5) =~= "rate:"@);
    }
    assert(every[0] == 'e' && rate[0] == 'r');
    assert(!"every:"@.is_prefix_of(rate)) by {
        if "every:"@.is_prefix_of(rate) {
            assert("every:"@[0] == rate.subrange(0, 6)[0]);
        }
    }
}

proof fn lemma_mode_words()
    ensures
        "always"@.len() == 6 && "always"@[0] == 'a',
        "never"@.len() == 5 && "never"@[0] == 'n',
        "once"@.len() == 4 && "once"@[0] == 'o',
        "every:"@.len() == 6 && "every:"@[0] == 'e',
        "rate:"@.len() == 5 && "rate:"@[0] == 'r',
{
    reveal_strlit("always");
    reveal_strlit("never");
    reveal_strlit("once");
    reveal_strlit("every:");
    reveal_strlit("rate:");
}

/// Nothing else is a mode.
pub proof fn law_nothing_else_is_a_mode(value: Seq<char>)
    requires
        mode_of(value) is Some,
    ensures
        value == "always"@ || value == "never"@ || value == "once"@ || "every:"@.is_prefix_of(value)
            || "rate:"@.is_prefix_of(value),
        mode_of(value) matches Some(Mode::Rule(rule)) ==> rule.usable(),
{
}

/// An entry is a point and a mode with an equals sign between them.
pub proof fn law_entry_is_point_and_mode(point: Seq<char>, value: Seq<char>)
    requires
        point.len() > 0,
        !space(point[0]),
        !space(point.last()),
        !point.contains('='),
        value.len() > 0,
        !space(value[0]),
        !space(value.last()),
    ensures
        directive_of(point + seq!['='] + value) == (match mode_of(value) {
            Some(mode) => Some(Directive { point, mode }),
            None => None,
        }),
{
    let entry = point + seq!['='] + value;
    assert(entry[0] == point[0]);
    assert(entry.last() == value.last());
    law_trimmed_text_stays(entry);
    law_first_separator_splits(point, '=', value);
    assert(entry.take(point.len() as int) =~= point);
    assert(entry.skip(point.len() as int + 1) =~= value);
    law_trimmed_text_stays(point);
    law_trimmed_text_stays(value);
}

/// Text without an equals sign is no entry.
pub proof fn law_entry_needs_an_equals_sign(part: Seq<char>)
    requires
        !part.contains('='),
    ensures
        directive_of(part) is None,
{
    law_trimming_takes_white_space_only(part);
    let entry = trimmed(part);
    let (from, to) = choose|from: int, to: int| #[trigger]
        is_core(part, from, to) && entry == part.subrange(from, to);
    assert(!entry.contains('=')) by {
        if entry.contains('=') {
            let i = entry.index_of('=');
            assert(entry[i] == '=');
            assert(part[from + i] == '=');
        }
    }
    law_first_separator_splits(entry, '=', Seq::empty());
}

/// A description is read part by part: what stands before the first comma is one
/// entry, or none, and what stands behind it is read likewise.
pub proof fn law_descriptions_are_read_part_by_part(part: Seq<char>, rest: Seq<char>)
    requires
        !part.contains(','),
    ensures
        directives_of(part) == (match directive_of(part) {
            Some(d) => seq![d],
            None => Seq::empty(),
        }),
        directives_of(part + seq![','] + rest) == directives_of(part) + directives_of(rest),
{
    let all = part + seq![','] + rest;
    law_first_separator_splits(part, ',', rest);
    assert(all.take(part.len() as int) =~= part);
    assert(all.skip(part.len() as int + 1) =~= rest);
}

/// Of several modes for one point the last one holds, and other points keep theirs.
pub proof fn law_last_mode_holds(
    directives: Seq<Directive<Seq<char>>>,
    rates: Seq<Option<Rate>>,
    point: Seq<char>,
    other: Seq<char>,
    rule: Rule,
)
    requires
        other != point,
    ensures
        ({
            let before = rules_of(directives, rates);
            let after = rules_of(directives.push(Directive { point, mode: Mode::Rule(rule) }), rates);
            &&& after.contains_key(point) && after[point] == rule
            &&& after.contains_key(other) <==> before.contains_key(other)
            &&& before.contains_key(other) ==> after[other] == before[other]
        }),
{
    let more = directives.push(Directive { point, mode: Mode::Rule(rule) });
    assert(more.drop_last() =~= directives);
}

/// The rates belong to the entries in the order of the rate texts; one that was not
/// read, or asks for more than all calls, leaves the rules as they are.
pub proof fn law_rates_belong_to_their_entries(
    directives: Seq<Directive<Seq<char>>>,
    rates: Seq<Option<Rate>>,
    point: Seq<char>,
    text: Seq<char>,
)
    ensures
        ({
            let count = rate_texts_of(directives).len() as int;
            let more = directives.push(Directive { point, mode: Mode::RateText(text) });
            let before = rules_of(directives, rates);
            &&& rate_texts_of(more) == rate_texts_of(directives).push(text)
            &&& rules_of(more, rates) == (if count < rates.len() && (rates[count] matches Some(rate)
                && (rate matches Rate::Below(limit) ==> limit <= 0x20_0000_0000_0000)) {
                before.insert(point, Rule::Rate(rates[count]->0))
            } else {
                before
            })
        }),
{
    let more = directives.push(Directive { point, mode: Mode::RateText(text) });
    assert(more.drop_last() =~= directives);
}

/// Every step of the hash can be undone: the hash before and the byte that is mixed
/// in both make a difference.
pub proof fn law_hash_depends_on_every_byte(x: u64, y: u64, a: u8, b: u8, i: int)
    requires
        0 <= i,
    ensures
        hash_step(x, a, i) == hash_step(x, b, i) ==> a == b,
        hash_step(x, a, i) == hash_step(y, a, i) ==> x == y,
        hash_step(x, a, i) == hash_step(x, a, i + 8),
{
    let shift = ((i % 8) * 8) as u64;
    assert(shift <= 56);
    assert(((x ^ ((a as u64) << shift)) << 7 | (x ^ ((a as u64) << shift)) >> 57)
        ^ 0x9E37_79B9_7F4A_7C15u64 == ((x ^ ((b as u64) << shift)) << 7 | (x ^ ((b as u64)
        << shift)) >> 57) ^ 0x9E37_79B9_7F4A_7C15u64 ==> a == b) by (bit_vector)
        requires
            shift <= 56,
    ;
    assert(((x ^ ((a as u64) << shift)) << 7 | (x ^ ((a as u64) << shift)) >> 57)
        ^ 0x9E37_79B9_7F4A_7C15u64 == ((y ^ ((a as u64) << shift)) << 7 | (y ^ ((a as u64)
        << shift)) >> 57) ^ 0x9E37_79B9_7F4A_7C15u64 ==> x == y) by (bit_vector)
        requires
            shift <= 56,
    ;
    assert((i + 8) % 8 == i % 8);
}

/// Two sequences of bytes that differ in one byte have different hashes.
pub proof fn law_one_byte_changes_the_hash(a: Seq<u8>, b: Seq<u8>, k: int)
    requires
        a.len() == b.len(),
        0 <= k < a.len(),
        a[k] != b[k],
        forall|i: int| 0 <= i < a.len() && i != k ==> a[i] == b[i],
    ensures
        stable_hash(a) != stable_hash(b),
    decreases a.len(),
{
    let last = a.len() - 1;
    let x = stable_hash(a.drop_last());
    let y = stable_hash(b.drop_last());
    law_hash_depends_on_every_byte(x, y, a.last(), b.last(), last);
    if k == last {
        assert(a.drop_last() =~= b.drop_last());
    } else {
        law_one_byte_changes_the_hash(a.drop_last(), b.drop_last(), k);
    }
}

/// Entries without a rate take no rate text, and no entries make no rules.
pub proof fn law_rules_take_no_rate(
    directives: Seq<Directive<Seq<char>>>,
    rates: Seq<Option<Rate>>,
    point: Seq<char>,
    rule: Rule,
)
    ensures
        rate_texts_of(directives.push(Directive { point, mode: Mode::Rule(rule) }))
            == rate_texts_of(directives),
        rate_texts_of(Seq::empty()).len() == 0,
        rules_of(Seq::empty(), rates) == Map::<Seq<char>, Rule>::empty(),
{
    let more = directives.push(Directive { point, mode: Mode::Rule(rule) });
    assert(more.drop_last() =~= directives);
}

/// An entry, as contracts see it, has the fields of the entry.
pub proof fn law_entry_view_keeps_the_fields(d: Directive, rule: Rule, text: String)
    ensures
        d@.point == d.point@,
        d@.mode == d.mode@,
        Mode::<String>::Rule(rule)@ == Mode::<Seq<char>>::Rule(rule),
        Mode::RateText(text)@ == Mode::RateText(text@),
{
}

} // verus!
