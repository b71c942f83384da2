//! The advisories that an update of a dependency fixes, brings in or
//! leaves open.

use vstd::prelude::*;
use vstd::string::StringExecFns;

verus! {

/// What an update does about an advisory.
#[derive(Debug, Clone, Copy, Hash, PartialEq, Eq, Structural)]
pub enum AdvisoryStatus {
    /// The version before the update has the advisory, the version after
    /// it has not.
    Fixed,
    /// The version after the update has the advisory, the version before
    /// it had not.
    Introduced,
    /// Both versions have the advisory.
    Unfixed,
}

impl AdvisoryStatus {
    /// The status of an advisory, given which of the two versions have it;
    /// `None` where neither has.
    pub fn of_update(in_prior: bool, in_updated: bool) -> (status: Option<AdvisoryStatus>)
        ensures
            status == (if in_updated && in_prior {
                Some(AdvisoryStatus::Unfixed)
            } else if in_updated {
                Some(AdvisoryStatus::Introduced)
            } else if in_prior {
                Some(AdvisoryStatus::Fixed)
            } else {
                None::<AdvisoryStatus>
            }),
    {
        if in_updated {
            if in_prior {
                Some(AdvisoryStatus::Unfixed)
            } else {
                Some(AdvisoryStatus::Introduced)
            }
        } else if in_prior {
            Some(AdvisoryStatus::Fixed)
        } else {
            None
        }
    }
}

/// An advisory of one crate and what the update does about it.
#[derive(Debug, Hash)]
pub struct AdvisoryHighlight {
    pub status: AdvisoryStatus,
    pub crate_name: String,
    pub id: String,
    pub url: Option<String>,
}

impl AdvisoryHighlight {
    /// Whether two highlights say the same: the same status, crate,
    /// advisory and address.
    pub open spec fn same_as(self, other: AdvisoryHighlight) -> bool {
        &&& self.status == other.status
        &&& self.crate_name@ == other.crate_name@
        &&& self.id@ == other.id@
        &&& match (self.url, other.url) {
            (Some(a), Some(b)) => a@ == b@,
            (None, None) => true,
            _ => false,
        }
    }

    /// Whether two highlights say the same.
    pub fn same(&self, other: &AdvisoryHighlight) -> (same: bool)
        ensures
            same == self.same_as(*other),
    {
        let same_url = match (&self.url, &other.url) {
            (Some(a), Some(b)) => *a == *b,
            (None, None) => true,
            _ => false,
        };
        self.status == other.status && self.crate_name == other.crate_name && self.id == other.id
            && same_url
    }
}

/// Whether `highlights` holds a highlight that says the same as `wanted`.
pub open spec fn holds(highlights: Seq<AdvisoryHighlight>, wanted: AdvisoryHighlight) -> bool {
    exists|i: int| 0 <= i < highlights.len() && (#[trigger] highlights[i]).same_as(wanted)
}

/// Whether no two highlights of the list say the same.
pub open spec fn all_different(highlights: Seq<AdvisoryHighlight>) -> bool {
    forall|i: int, j: int|
        0 <= i < j < highlights.len() ==> !(#[trigger] highlights[i]).same_as(
            #[trigger] highlights[j],
        )
}

/// The number of highlights of the list that have the status `status`.
pub open spec fn count_status(highlights: Seq<AdvisoryHighlight>, status: AdvisoryStatus) -> nat
    decreases highlights.len(),
{
    if highlights.len() == 0 {
        0
    } else {
        count_status(highlights.drop_last(), status) + if highlights.last().status == status {
            1nat
        } else {
            0nat
        }
    }
}

/// How many advisories an update brings in, leaves open and fixes.
#[derive(Debug, Clone, Copy, PartialEq, Eq, Structural)]
pub struct AdvisoryCounts {
    pub introduced: usize,
    pub unfixed: usize,
    pub fixed: usize,
}

/// The decimal digit `d`.
pub open spec fn digit(d: nat) -> char {
    if d == 0 {
        '0'
    } else if d == 1 {
        '1'
    } else if d == 2 {
        '2'
    } else if d == 3 {
        '3'
    } else if d == 4 {
        '4'
    } else if d == 5 {
        '5'
    } else if d == 6 {
        '6'
    } else if d == 7 {
        '7'
    } else if d == 8 {
        '8'
    } else {
        '9'
    }
}

/// The number `n` in decimal digits, without leading zeros.
pub open spec fn decimal(n: nat) -> Seq<char>
    decreases n,
{
    if n < 10 {
        seq![digit(n)]
    } else {
        decimal(n / 10).push(digit(n % 10))
    }
}

fn digit_text(d: usize) -> (text: &'static str)
    requires
        d < 10,
    ensures
        text@ == seq![digit(d as nat)],
{
    proof {
        reveal_strlit("0");
        reveal_strlit("1");
        reveal_strlit("2");
        reveal_strlit("3");
        reveal_strlit("4");
        reveal_strlit("5");
        reveal_strlit("6");
        reveal_strlit("7");
        reveal_strlit("8");
        reveal_strlit("9");
    }
    let text = if d == 0 {
        "0"
    } else if d == 1 {
        "1"
    } else if d == 2 {
        "2"
    } else if d == 3 {
        "3"
    } else if d == 4 {
        "4"
    } else if d == 5 {
        "5"
    } else if d == 6 {
        "6"
    } else if d == 7 {
        "7"
    } else if d == 8 {
        "8"
    } else {
        "9"
    };
    assert(text@ =~= seq![digit(d as nat)]);
    text
}

/// The number `n` in decimal digits, without leading zeros.
pub fn decimal_text(n: usize) -> (text: String)
    ensures
        text@ == decimal(n as nat),
    decreases n,
{
    if n < 10 {
        String::from_str(digit_text(n))
    } else {
        let mut text = decimal_text(n / 10);
        text.append(digit_text(n % 10));
        assert(text@ =~= decimal((n / 10) as nat).push(digit((n % 10) as nat)));
        text
    }
}

/// The word for `n` advisories.
pub open spec fn advisory_word(n: nat) -> Seq<char> {
    if n == 1 {
        "advisory"@
    } else {
        "advisories"@
    }
}

/// The line of the banner that tells of `n` advisories of one status.
pub open spec fn banner_line(status: AdvisoryStatus, n: nat) -> Seq<char> {
    match status {
        AdvisoryStatus::Introduced => ":bomb: This update introduces "@ + decimal(n) + " known "@
            + advisory_word(n) + "\n"@,
        AdvisoryStatus::Unfixed => ":bomb: "@ + decimal(n) + " known "@ + advisory_word(n)
            + " still unfixed\n"@,
        AdvisoryStatus::Fixed => ":tada: This update fixes "@ + decimal(n) + " known "@
            + advisory_word(n) + "\n"@,
    }
}

/// The lines of the banner: one for each status that has advisories,
/// those brought in first, then those left open, then those fixed.
pub open spec fn banner_lines(introduced: nat, unfixed: nat, fixed: nat) -> Seq<Seq<char>> {
    let first = if introduced > 0 {
        seq![banner_line(AdvisoryStatus::Introduced, introduced)]
    } else {
        Seq::<Seq<char>>::empty()
    };
    let second = if unfixed > 0 {
        first.push(banner_line(AdvisoryStatus::Unfixed, unfixed))
    } else {
        first
    };
    if fixed > 0 {
        second.push(banner_line(AdvisoryStatus::Fixed, fixed))
    } else {
        second
    }
}

/// The texts of a list of strings.
pub open spec fn texts(lines: Seq<String>) -> Seq<Seq<char>> {
    Seq::new(lines.len(), |i: int| lines[i]@)
}

/// The word for `n` advisories: the singular for one, the plural for any
/// other number.
pub fn advisory_text(n: usize) -> (word: &'static str)
    ensures
        word@ == advisory_word(n as nat),
{
    if n == 1 {
        "advisory"
    } else {
        "advisories"
    }
}

/// Reviews the updates of dependencies.
pub struct UpdateAnalyzer;

impl UpdateAnalyzer {
    /// Adds a highlight to the list, unless the list holds one that says
    /// the same. Tells whether it was added.
    pub fn add_advisory_highlight(
        highlights: &mut Vec<AdvisoryHighlight>,
        highlight: AdvisoryHighlight,
    ) -> (added: bool)
        ensures
            added == !holds(old(highlights)@, highlight),
            final(highlights)@ == (if added {
                old(highlights)@.push(highlight)
            } else {
                old(highlights)@
            }),
            all_different(old(highlights)@) ==> all_different(final(highlights)@),
    {
        let mut i: usize = 0;
        while i < highlights.len()
            invariant
                i <= highlights.len(),
                *highlights == *old(highlights),
                forall|k: int| 0 <= k < i ==> !(#[trigger] highlights[k]).same_as(highlight),
            decreases highlights.len() - i,
        {
            if highlights[i].same(&highlight) {
                return false;
            }
            i += 1;
        }
        highlights.push(highlight);
        proof {
            let before = old(highlights)@;
            let after = highlights@;
            if all_different(before) {
                assert forall|a: int, b: int| 0 <= a < b < after.len() implies !(
                #[trigger] after[a]).same_as(#[trigger] after[b]) by {
                    if b < before.len() {
                        assert(after[a] == before[a] && after[b] == before[b]);
                    } else {
                        assert(after[a] == before[a]);
                        assert(!before[a].same_as(highlight));
                    }
                }
            }
        }
        true
    }

    /// Counts the highlights of each status.
    pub fn count_advisories(highlights: &Vec<AdvisoryHighlight>) -> (counts: AdvisoryCounts)
        ensures
            counts.introduced == count_status(highlights@, AdvisoryStatus::Introduced),
            counts.unfixed == count_status(highlights@, AdvisoryStatus::Unfixed),
            counts.fixed == count_status(highlights@, AdvisoryStatus::Fixed),
    {
        let mut counts = AdvisoryCounts { introduced: 0, unfixed: 0, fixed: 0 };
        let mut i: usize = 0;
        assert(highlights@.take(0) =~= Seq::empty());
        while i < highlights.len()
            invariant
                i <= highlights.len(),
                counts.introduced <= i,
                counts.unfixed <= i,
                counts.fixed <= i,
                counts.introduced == count_status(
                    highlights@.take(i as int),
                    AdvisoryStatus::Introduced,
                ),
                counts.unfixed == count_status(highlights@.take(i as int), AdvisoryStatus::Unfixed),
                counts.fixed == count_status(highlights@.take(i as int), AdvisoryStatus::Fixed),
            decreases highlights.len() - i,
        {
            proof {
                let next = highlights@.take(i + 1);
                assert(next.drop_last() =~= highlights@.take(i as int));
                assert(next.last() == highlights[i as int]);
            }
            match highlights[i].status {
                AdvisoryStatus::Introduced => {
                    counts.introduced += 1;
                },
                AdvisoryStatus::Unfixed => {
                    counts.unfixed += 1;
                },
                AdvisoryStatus::Fixed => {
                    counts.fixed += 1;
                },
            }
            i += 1;
        }
        assert(highlights@.take(i as int) =~= highlights@);
        counts
    }

    /// The line of the banner that tells of `n` advisories of one status.
    pub fn advisory_banner_line(status: AdvisoryStatus, n: usize) -> (line: String)
        ensures
            line@ == banner_line(status, n as nat),
    {
        let mut line = match status {
            AdvisoryStatus::Introduced => String::from_str(":bomb: This update introduces "),
            AdvisoryStatus::Unfixed => String::from_str(":bomb: "),
            AdvisoryStatus::Fixed => String::from_str(":tada: This update fixes "),
        };
        let number = decimal_text(n);
        line.append(number.as_str());
        line.append(" known ");
        line.append(advisory_text(n));
        match status {
            AdvisoryStatus::Unfixed => {
                line.append(" still unfixed\n");
            },
            _ => {
                line.append("\n");
            },
        }
        line
    }

    /// The banner that goes above the review of an update: one line for
    /// each status that has advisories, those brought in first, then those
    /// left open, then those fixed. Each line is to be set as a header.
    pub fn get_advisory_banner(advisory_highlights: &Vec<AdvisoryHighlight>) -> (banner: Vec<
        String,
    >)
        ensures
            texts(banner@) == banner_lines(
                count_status(advisory_highlights@, AdvisoryStatus::Introduced),
                count_status(advisory_highlights@, AdvisoryStatus::Unfixed),
                count_status(advisory_highlights@, AdvisoryStatus::Fixed),
            ),
    {
        let counts = Self::count_advisories(advisory_highlights);
        let mut banner: Vec<String> = Vec::new();
        assert(texts(banner@) =~= Seq::<Seq<char>>::empty());
        if counts.introduced > 0 {
            let ghost before = texts(banner@);
            let line = Self::advisory_banner_line(AdvisoryStatus::Introduced, counts.introduced);
            banner.push(line);
            assert(texts(banner@) =~= before.push(line@));
        }
        if counts.unfixed > 0 {
            let ghost before = texts(banner@);
            let line = Self::advisory_banner_line(AdvisoryStatus::Unfixed, counts.unfixed);
            banner.push(line);
            assert(texts(banner@) =~= before.push(line@));
        }
        if counts.fixed > 0 {
            let ghost before = texts(banner@);
            let line = Self::advisory_banner_line(AdvisoryStatus::Fixed, counts.fixed);
            banner.push(line);
            assert(texts(banner@) =~= before.push(line@));
        }
        banner
    }
}

} // verus!
