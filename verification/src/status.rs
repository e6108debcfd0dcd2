//! Classification of daemon readings for display: which status, and which
//! color, each value gets.

use vstd::prelude::*;
use vstd::std_specs::cmp::{PartialOrdIs, PartialOrdSpec};
use crate::value_range::{Contains, ValueRange};

verus! {

/// The status of a displayed reading.
#[derive(Debug, Clone, Copy, PartialEq, Eq, Structural)]
pub enum CellStatus {
    Valid,
    Missing,
    Error,
    Warn,
    OutOfRange,
}

/// Display colors.
#[derive(Debug, Clone, Copy, PartialEq, Eq, Structural)]
pub enum StatusColor {
    Green,
    Yellow,
    Red,
}

/// The message id under which a status is shown.
pub open spec fn status_message_id(s: CellStatus) -> Seq<char> {
    match s {
        CellStatus::Valid => "valid"@,
        CellStatus::Missing => "missing"@,
        CellStatus::Error => "error"@,
        CellStatus::Warn => "warn"@,
        CellStatus::OutOfRange => "out-of-range"@,
    }
}

/// The message id of a status.
pub fn cell_status_message_id(s: CellStatus) -> (id: &'static str)
    ensures
        id@ == status_message_id(s),
{
    match s {
        CellStatus::Valid => "valid",
        CellStatus::Missing => "missing",
        CellStatus::Error => "error",
        CellStatus::Warn => "warn",
        CellStatus::OutOfRange => "out-of-range",
    }
}

/// The color a status is shown in: valid in green, errors in red, the rest
/// in yellow.
pub fn cell_status_color(s: CellStatus) -> (c: StatusColor)
    ensures
        c == match s {
            CellStatus::Valid => StatusColor::Green,
            CellStatus::Error => StatusColor::Red,
            _ => StatusColor::Yellow,
        },
{
    match s {
        CellStatus::Valid => StatusColor::Green,
        CellStatus::Error => StatusColor::Red,
        _ => StatusColor::Yellow,
    }
}

/// Green for `true`, yellow for `false`.
pub fn map_bool_to_color(b: bool) -> (c: StatusColor)
    ensures
        c == (if b { StatusColor::Green } else { StatusColor::Yellow }),
{
    if b {
        StatusColor::Green
    } else {
        StatusColor::Yellow
    }
}

/// Red for a blacklisted item, green otherwise.
pub fn map_bool_to_color_blacklist(b: bool) -> (c: StatusColor)
    ensures
        c == (if b { StatusColor::Red } else { StatusColor::Green }),
{
    if b {
        StatusColor::Red
    } else {
        StatusColor::Green
    }
}

/// The status of reading `o` against the value range `r`: without a range
/// every reading is valid; a missing reading is missing; otherwise the
/// error range is checked first, then the warning range, then the valid
/// range, and a value in none of them is out of range.
pub fn classify_value<T: PartialOrd>(o: Option<T>, r: Option<ValueRange<T>>) -> (s: CellStatus)
    ensures
        T::obeys_partial_cmp_spec() ==> s == match r {
            None => CellStatus::Valid,
            Some(range) => match o {
                None => CellStatus::Missing,
                Some(v) => if range.err_range.start.is_le(&v) && range.err_range.end.is_gt(&v) {
                    CellStatus::Error
                } else if range.warn_range.start.is_le(&v) && range.warn_range.end.is_gt(&v) {
                    CellStatus::Warn
                } else if range.valid_range.start.is_le(&v) && range.valid_range.end.is_gt(&v) {
                    CellStatus::Valid
                } else {
                    CellStatus::OutOfRange
                },
            },
        },
{
    match r {
        None => CellStatus::Valid,
        Some(range) => match o {
            None => CellStatus::Missing,
            Some(val) => {
                if range.err_range.contains_val(&val) {
                    CellStatus::Error
                } else if range.warn_range.contains_val(&val) {
                    CellStatus::Warn
                } else if range.valid_range.contains_val(&val) {
                    CellStatus::Valid
                } else {
                    CellStatus::OutOfRange
                }
            }
        },
    }
}

/// The status of a flag `o` that should not be set when `r` is `true`:
/// without an expectation every reading is valid; a missing reading is
/// missing; otherwise a present flag warns when `r` is `true` and is valid
/// when it is `false`.
pub fn classify_bool(o: Option<bool>, r: Option<bool>) -> (s: CellStatus)
    ensures
        s == match r {
            None => CellStatus::Valid,
            Some(expect) => match o {
                None => CellStatus::Missing,
                Some(_) => if expect { CellStatus::Warn } else { CellStatus::Valid },
            },
        },
{
    match r {
        None => CellStatus::Valid,
        Some(range) => {
            if range {
                match o {
                    None => CellStatus::Missing,
                    Some(_) => CellStatus::Warn,
                }
            } else {
                match o {
                    None => CellStatus::Missing,
                    Some(_) => CellStatus::Valid,
                }
            }
        }
    }
}

/// The status of a point in time: always valid.
pub fn classify_datetime<T>(_o: Option<T>) -> (s: CellStatus)
    ensures
        s == CellStatus::Valid,
{
    CellStatus::Valid
}

/// The status of an ordered reading `o` that should reach at least `r`:
/// without a bound it is out of range, a missing reading is missing, a
/// reading at or above the bound is valid, and one below it warns.
pub fn classify_at_least<T: PartialOrd>(o: Option<T>, r: Option<T>) -> (s: CellStatus)
    ensures
        T::obeys_partial_cmp_spec() ==> s == match r {
            None => CellStatus::OutOfRange,
            Some(bound) => match o {
                None => CellStatus::Missing,
                Some(v) => if v.is_ge(&bound) { CellStatus::Valid } else { CellStatus::Warn },
            },
        },
{
    match r {
        None => CellStatus::OutOfRange,
        Some(bound) => match o {
            None => CellStatus::Missing,
            Some(v) => {
                if v >= bound {
                    CellStatus::Valid
                } else {
                    CellStatus::Warn
                }
            }
        },
    }
}

} // verus!
