//! Decisions of the control panel: what a frame of slider changes asks for.
use vstd::prelude::*;

use rand::RngExt;

use crate::decimal::{decimal, digit_char, push_decimal};
use crate::types::{ExportEvent, GenerationMode, OpenSpaceKind, RegenerateEvent, Seed};

verus! {

/// Tracks what the user touched this frame, so we only pay for a full skeleton
/// rebuild when a parameter that actually shapes it changed.
pub struct Dirty {
    pub regenerate: bool,
    pub rebuild_skeleton: bool,
}

impl Default for Dirty {
    fn default() -> (d: Dirty)
        ensures
            !d.regenerate,
            !d.rebuild_skeleton,
    {
        Dirty { regenerate: false, rebuild_skeleton: false }
    }
}

impl Dirty {
    /// A skeleton rebuild is only ever asked for together with a regeneration.
    pub open spec fn consistent(&self) -> bool {
        self.rebuild_skeleton ==> self.regenerate
    }

    /// Records a change to a parameter that only affects subdivision or
    /// materials: the town is regenerated over the existing skeleton.
    pub fn cheap(&mut self, changed: bool)
        ensures
            final(self).regenerate == (old(self).regenerate || changed),
            final(self).rebuild_skeleton == old(self).rebuild_skeleton,
            old(self).consistent() ==> final(self).consistent(),
    {
        self.regenerate = self.regenerate || changed;
    }

    /// Records a change to a parameter that shapes the skeleton: the skeleton
    /// is rebuilt and the town regenerated.
    pub fn structural(&mut self, changed: bool)
        ensures
            final(self).regenerate == (old(self).regenerate || changed),
            final(self).rebuild_skeleton == (old(self).rebuild_skeleton || changed),
            old(self).consistent() ==> final(self).consistent(),
    {
        if changed {
            self.regenerate = true;
            self.rebuild_skeleton = true;
        }
    }

    /// The event the panel sends at the end of the frame, if anything changed.
    /// Panel changes never count as hand edits of the skeleton.
    pub fn regenerate_event(&self, seed: u64) -> (e: Option<RegenerateEvent>)
        ensures
            self.regenerate <==> e.is_some(),
            e matches Some(ev) ==> ev.seed == seed && !ev.user_edit && ev.rebuild_skeleton
                == self.rebuild_skeleton,
    {
        if self.regenerate {
            Some(
                RegenerateEvent {
                    seed,
                    user_edit: false,
                    rebuild_skeleton: self.rebuild_skeleton,
                },
            )
        } else {
            None
        }
    }
}

/// The name of the file the city with `seed` is exported to.
pub open spec fn export_file_name(seed: u64) -> Seq<char> {
    "city_"@ + decimal(seed as nat) + ".obj"@
}

/// The export request for the city generated from `seed`.
pub fn export_event(seed: u64) -> (e: ExportEvent)
    ensures
        e.filename@ == export_file_name(seed),
{
    let mut filename = String::new();
    filename.append("city_");
    push_decimal(&mut filename, seed);
    filename.append(".obj");
    assert(filename@ =~= export_file_name(seed));
    ExportEvent { filename }
}

/// The generation mode selected by the "Auto regenerate skeleton" checkbox.
pub fn generation_mode_for(auto: bool) -> (m: GenerationMode)
    ensures
        m == if auto {
            GenerationMode::Auto
        } else {
            GenerationMode::Manual
        },
{
    if auto {
        GenerationMode::Auto
    } else {
        GenerationMode::Manual
    }
}

/// Number of parks among the first `k` open spaces.
pub open spec fn count_parks(kinds: Seq<OpenSpaceKind>, k: int) -> nat
    decreases k,
{
    if k <= 0 {
        0
    } else {
        count_parks(kinds, k - 1) + if kinds[k - 1] == OpenSpaceKind::Park {
            1nat
        } else {
            0nat
        }
    }
}

proof fn lemma_count_parks_bounded(kinds: Seq<OpenSpaceKind>, k: int)
    requires
        0 <= k,
    ensures
        count_parks(kinds, k) <= k,
    decreases k,
{
    if k > 0 {
        lemma_count_parks_bounded(kinds, k - 1);
    }
}

/// The open-space statistics of the panel: the number of parks, and the number
/// of plazas (every open space that is not a park).
pub fn open_space_counts(kinds: &Vec<OpenSpaceKind>) -> (counts: (usize, usize))
    ensures
        counts.0 == count_parks(kinds@, kinds@.len() as int),
        counts.0 + counts.1 == kinds@.len(),
{
    let mut parks: usize = 0;
    let mut i: usize = 0;
    while i < kinds.len()
        invariant
            i <= kinds@.len(),
            parks == count_parks(kinds@, i as int),
        decreases kinds@.len() - i,
    {
        proof {
            lemma_count_parks_bounded(kinds@, i as int);
        }
        if kinds[i] == OpenSpaceKind::Park {
            parks = parks + 1;
        }
        i = i + 1;
    }
    proof {
        lemma_count_parks_bounded(kinds@, kinds@.len() as int);
    }
    (parks, kinds.len() - parks)
}

/// Whether `c` is a decimal digit.
pub open spec fn is_digit(c: char) -> bool {
    '0' <= c <= '9'
}

/// The value of a run of decimal digits.
pub open spec fn digits_value(s: Seq<char>) -> nat
    decreases s.len(),
{
    if s.len() == 0 {
        0
    } else {
        digits_value(s.drop_last()) * 10 + ((s.last() as int) - ('0' as int)) as nat
    }
}

/// The digits of an unsigned number in text: everything after an optional leading `+`.
pub open spec fn unsigned_digits(s: Seq<char>) -> Seq<char> {
    if s.len() > 0 && s[0] == '+' {
        s.drop_first()
    } else {
        s
    }
}

/// The value `u64`'s `FromStr` reads from `s`: an optional `+` followed by at
/// least one decimal digit and nothing else, with a value that fits.
pub open spec fn parsed_u64(s: Seq<char>) -> Option<u64> {
    let d = unsigned_digits(s);
    if d.len() > 0 && (forall|i: int| 0 <= i < d.len() ==> is_digit(#[trigger] d[i]))
        && digits_value(d) <= u64::MAX {
        Some(digits_value(d) as u64)
    } else {
        None
    }
}

proof fn lemma_digits_value_grows(s: Seq<char>, k: int)
    requires
        0 <= k <= s.len(),
        forall|i: int| 0 <= i < s.len() ==> is_digit(#[trigger] s[i]),
    ensures
        digits_value(s.subrange(0, k)) <= digits_value(s),
    decreases s.len() - k,
{
    if k < s.len() {
        lemma_digits_value_grows(s, k + 1);
        assert(s.subrange(0, k + 1).drop_last() =~= s.subrange(0, k));
    } else {
        assert(s.subrange(0, k) =~= s);
    }
}

proof fn lemma_decimal_digits(n: nat)
    ensures
        decimal(n).len() > 0,
        forall|i: int| 0 <= i < decimal(n).len() ==> is_digit(#[trigger] decimal(n)[i]),
        digits_value(decimal(n)) == n,
    decreases n,
{
    let d = n % 10;
    assert(digit_char(d) as int - '0' as int == d as int) by {
        if d == 0 {
        } else if d == 1 {
        } else if d == 2 {
        } else if d == 3 {
        } else if d == 4 {
        } else if d == 5 {
        } else if d == 6 {
        } else if d == 7 {
        } else if d == 8 {
        } else {
            assert(d == 9);
        }
    }
    if n < 10 {
        assert(d == n);
        let t = seq![digit_char(n)];
        assert(t.drop_last() =~= Seq::<char>::empty());
        assert(digits_value(Seq::<char>::empty()) == 0);
    } else {
        lemma_decimal_digits(n / 10);
        let prev = decimal(n / 10);
        let t = prev.push(digit_char(d));
        assert(t.drop_last() =~= prev);
        assert(forall|i: int| 0 <= i < t.len() ==> is_digit(#[trigger] t[i])) by {
            assert forall|i: int| 0 <= i < t.len() implies is_digit(#[trigger] t[i]) by {
                if i < prev.len() {
                    assert(t[i] == prev[i]);
                }
            }
        }
        assert(digits_value(t) == (n / 10) * 10 + d);
    }
}

/// Reading back the decimal text of any seed gives the seed again, so the
/// seed shown in the panel and the seed in an export file name both parse to
/// the seed they were written from.
pub proof fn parse_reads_back_decimal(n: u64)
    ensures
        parsed_u64(decimal(n as nat)) == Some(n),
{
    lemma_decimal_digits(n as nat);
    let t = decimal(n as nat);
    assert(is_digit(t[0]));
    assert(unsigned_digits(t) == t);
}

/// Reads a seed typed into the panel the way `u64`'s `FromStr` does; `None`
/// for text that is not a number or does not fit.
pub fn parse_seed(text: &str) -> (r: Option<u64>)
    ensures
        r == parsed_u64(text@),
{
    let len = text.unicode_len();
    let ghost s = text@;
    let mut start: usize = 0;
    if len > 0 && text.get_char(0) == '+' {
        start = 1;
    }
    let ghost d = unsigned_digits(s);
    proof {
        assert(d =~= s.subrange(start as int, len as int));
    }
    if start >= len {
        return None;
    }
    let mut value: u64 = 0;
    let mut i: usize = start;
    while i < len
        invariant
            len == s.len(),
            s == text@,
            start <= i <= len,
            d == s.subrange(start as int, len as int),
            d == unsigned_digits(s),
            forall|k: int| 0 <= k < i - start ==> is_digit(#[trigger] d[k]),
            value == digits_value(d.subrange(0, i - start)),
        decreases len - i,
    {
        let c = text.get_char(i);
        proof {
            assert(d[i - start] == c);
        }
        if !('0' <= c && c <= '9') {
            proof {
                assert(!is_digit(d[i - start]));
            }
            return None;
        }
        let digit = (c as u32 - '0' as u32) as u64;
        proof {
            assert(d.subrange(0, i + 1 - start).drop_last() =~= d.subrange(0, i - start));
            assert(d.subrange(0, i + 1 - start).last() == c);
            assert(digits_value(d.subrange(0, i + 1 - start)) == value * 10 + digit);
        }
        match value.checked_mul(10) {
            Some(tens) => match tens.checked_add(digit) {
                Some(next) => {
                    value = next;
                },
                None => {
                    proof {
                        lemma_prefix_too_big(d, i + 1 - start);
                    }
                    return None;
                },
            },
            None => {
                proof {
                    lemma_prefix_too_big(d, i + 1 - start);
                }
                return None;
            },
        }
        i = i + 1;
    }
    proof {
        assert(d.subrange(0, len - start) =~= d);
    }
    Some(value)
}

/// When a prefix of the digits already overflows, so does the whole number.
proof fn lemma_prefix_too_big(d: Seq<char>, m: int)
    requires
        0 < m <= d.len(),
        digits_value(d.subrange(0, m)) > u64::MAX,
    ensures
        (forall|k: int| 0 <= k < d.len() ==> is_digit(#[trigger] d[k])) ==> digits_value(d)
            > u64::MAX,
{
    if forall|k: int| 0 <= k < d.len() ==> is_digit(#[trigger] d[k]) {
        lemma_digits_value_grows(d, m);
    }
}

/// The seed after the seed field was edited: the typed number when it parses,
/// the current seed otherwise.
pub fn seed_after_edit(current: u64, text: &str) -> (seed: u64)
    ensures
        seed == match parsed_u64(text@) {
            Some(v) => v,
            None => current,
        },
{
    match parse_seed(text) {
        Some(v) => v,
        None => current,
    }
}

/// A fresh seed from the thread-local generator, `rand::rng().random::<u64>()`.
/// The value is random: nothing is claimed about it.
#[verifier::external_body]
fn fresh_seed() -> u64 {
    rand::rng().random::<u64>()
}

/// Takes `fresh` as the new seed and asks for a full skeleton rebuild.
pub fn reseed(seed: &mut Seed, dirty: &mut Dirty, fresh: u64)
    ensures
        final(seed).0 == fresh,
        final(dirty).regenerate,
        final(dirty).rebuild_skeleton,
{
    seed.0 = fresh;
    dirty.structural(true);
}

/// The "Randomize" button: a fresh random seed (see [`reseed`]) and a full
/// skeleton rebuild.
pub fn randomize(seed: &mut Seed, dirty: &mut Dirty)
    ensures
        final(dirty).regenerate,
        final(dirty).rebuild_skeleton,
{
    let fresh = fresh_seed();
    reseed(seed, dirty, fresh);
}

} // verus!
