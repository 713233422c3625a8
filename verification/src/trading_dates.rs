use vstd::prelude::*;

use crate::dates::{
    eastern_date_format, eastern_date_text, eastern_day_after, eastern_day_after_of, eastern_fields,
    eastern_fields_of, timestamp_in_chrono_range, LocalFields,
};
use crate::market_session::{parse_eastern_date_time, parsed_eastern_timestamp};
use crate::strings::str_equals;

verus! {

/// Saturday or Sunday.
pub open spec fn is_weekend_day(fields: LocalFields) -> bool {
    fields.weekday == 5 || fields.weekday == 6
}

/// The date left out of every list: the day after Thanksgiving 2022, when the
/// market closed early.
pub open spec fn is_skipped_date(text: Seq<char>) -> bool {
    text == "2022-11-25 00:00:00"@
}

/// The text of each string.
pub open spec fn string_views(strings: Seq<String>) -> Seq<Seq<char>> {
    Seq::new(strings.len(), |k: int| strings[k]@)
}

/// `front` followed by `rest`, when there is a rest.
pub open spec fn prepend(front: Seq<Seq<char>>, rest: Option<Seq<Seq<char>>>) -> Option<Seq<Seq<char>>> {
    match rest {
        Some(r) => Some(front + r),
        None => None,
    }
}

/// The weekday dates (as `YYYY-MM-DD 00:00:00`, US/Eastern) from `pointer` up
/// to `to`, one calendar day at a time, or `None` where a day cannot be
/// stepped over.
pub open spec fn dates_from(pointer: i64, to: i64) -> Option<Seq<Seq<char>>>
    decreases to - pointer,
{
    if pointer > to {
        Some(seq![])
    } else {
        let text = eastern_date_text(pointer);
        let here: Seq<Seq<char>> = if is_weekend_day(eastern_fields(pointer)) || is_skipped_date(text) {
            seq![]
        } else {
            seq![text]
        };
        match eastern_day_after(pointer) {
            None => None,
            Some(next) => if next <= pointer {
                None
            } else if next > to {
                Some(here)
            } else {
                prepend(here, dates_from(next, to))
            },
        }
    }
}

/// The dates between two `%Y-%m-%d %H:%M:%S` US/Eastern times, or `None` when
/// either does not parse to a single US/Eastern time.
pub open spec fn spec_list_of_dates(from: Seq<char>, to: Seq<char>) -> Option<Seq<Seq<char>>> {
    match (parsed_eastern_timestamp(from), parsed_eastern_timestamp(to)) {
        (Some(f), Some(t)) => dates_from(f, t),
        _ => None,
    }
}

/// Lists the weekday dates from `from` to `to`, both `%Y-%m-%d %H:%M:%S`
/// US/Eastern times, as `YYYY-MM-DD 00:00:00` texts; the day after
/// Thanksgiving 2022 is left out. `None` when a time does not parse or a day
/// cannot be stepped over.
pub fn build_list_of_dates(from: &str, to: &str) -> (dates: Option<Vec<String>>)
    ensures
        match dates {
            Some(d) => spec_list_of_dates(from@, to@) == Some(string_views(d@)),
            None => spec_list_of_dates(from@, to@) is None,
        },
{
    let first = parse_eastern_date_time(from);
    let last = parse_eastern_date_time(to);
    let (start, end) = match (first, last) {
        (Some(f), Some(t)) => (f, t),
        _ => {
            return None;
        },
    };
    let mut dates: Vec<String> = Vec::new();
    let mut pointer = start;
    assert(string_views(dates@) =~= Seq::<Seq<char>>::empty());
    assert(prepend(string_views(dates@), dates_from(start, end)) =~= dates_from(start, end));
    while pointer <= end
        invariant
            timestamp_in_chrono_range(pointer),
            spec_list_of_dates(from@, to@) == dates_from(start, end),
            dates_from(start, end) == prepend(string_views(dates@), dates_from(pointer, end)),
        decreases if pointer > end {
            0
        } else {
            end - pointer + 1
        },
    {
        let fields = eastern_fields_of(pointer);
        let text = eastern_date_format(pointer);
        let weekend = fields.weekday == 5 || fields.weekday == 6;
        let skipped = str_equals(text.as_str(), "2022-11-25 00:00:00");
        let next = match eastern_day_after_of(pointer) {
            Some(n) => n,
            None => {
                return None;
            },
        };
        if next <= pointer {
            return None;
        }
        let ghost before = string_views(dates@);
        let ghost here: Seq<Seq<char>> = if weekend || skipped {
            seq![]
        } else {
            seq![text@]
        };
        if !weekend && !skipped {
            dates.push(text);
        }
        assert(string_views(dates@) =~= before + here);
        proof {
            if next > end {
                assert(dates_from(next, end) == Some(Seq::<Seq<char>>::empty()));
                assert(before + here =~= before + here + Seq::<Seq<char>>::empty());
            } else {
                match dates_from(next, end) {
                    Some(r) => {
                        assert(before + (here + r) =~= before + here + r);
                    },
                    None => {},
                }
            }
        }
        pointer = next;
    }
    assert(string_views(dates@) + Seq::<Seq<char>>::empty() =~= string_views(dates@));
    Some(dates)
}

/// Every listed date is the local date of a weekday instant, and the day
/// after Thanksgiving 2022 is never listed.
pub proof fn law_listed_dates_are_weekdays(pointer: i64, to: i64)
    ensures
        dates_from(pointer, to) matches Some(dates) ==> forall|k: int|
            0 <= k < dates.len() ==> {
                &&& !is_skipped_date(#[trigger] dates[k])
                &&& exists|t: i64| dates[k] == eastern_date_text(t) && !is_weekend_day(eastern_fields(t))
            },
    decreases to - pointer,
{
    if pointer <= to {
        let text = eastern_date_text(pointer);
        let here: Seq<Seq<char>> = if is_weekend_day(eastern_fields(pointer)) || is_skipped_date(text) {
            seq![]
        } else {
            seq![text]
        };
        match eastern_day_after(pointer) {
            None => {},
            Some(next) => {
                if next > pointer && next <= to {
                    law_listed_dates_are_weekdays(next, to);
                    match dates_from(next, to) {
                        Some(rest) => {
                            let all = here + rest;
                            assert(dates_from(pointer, to) == Some(all));
                            assert forall|k: int| 0 <= k < all.len() implies {
                                &&& !is_skipped_date(#[trigger] all[k])
                                &&& exists|t: i64| all[k] == eastern_date_text(t) && !is_weekend_day(eastern_fields(t))
                            } by {
                                if k < here.len() {
                                    assert(all[k] == text);
                                } else {
                                    assert(all[k] == rest[k - here.len()]);
                                }
                            }
                        },
                        None => {},
                    }
                } else if next > pointer {
                    assert(dates_from(pointer, to) == Some(here));
                    assert forall|k: int| 0 <= k < here.len() implies {
                        &&& !is_skipped_date(#[trigger] here[k])
                        &&& exists|t: i64| here[k] == eastern_date_text(t) && !is_weekend_day(eastern_fields(t))
                    } by {
                        assert(here[k] == text);
                    }
                }
            },
        }
    }
}

} // verus!
