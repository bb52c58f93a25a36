//! The size of the terminal, as `TRY_WIDTH` and `TRY_HEIGHT` may override it.
use vstd::prelude::*;
use crate::naming::{parse_u64, parsed_u64};

verus! {

/// The terminal.
pub struct Terminal;

/// A dimension given in the environment: a positive number that fits in
/// 16 bits (`str::parse::<u16>`).
pub open spec fn env_dimension(v: Option<Seq<char>>) -> Option<u16> {
    match v {
        Some(s) => match parsed_u64(s) {
            Some(n) => if 0 < n <= u16::MAX {
                Some(n as u16)
            } else {
                None
            },
            None => None,
        },
        None => None,
    }
}

/// The size to draw in: the environment's width and height where given,
/// else the terminal's, else 80 by 24.
pub open spec fn chosen_size(width: Option<u16>, height: Option<u16>, term: Option<(u16, u16)>) -> (u16, u16) {
    match (width, height) {
        (Some(w), Some(h)) => (w, h),
        _ => match term {
            Some((tw, th)) => (
                match width {
                    Some(w) => w,
                    None => tw,
                },
                match height {
                    Some(h) => h,
                    None => th,
                },
            ),
            None => (
                match width {
                    Some(w) => w,
                    None => 80,
                },
                match height {
                    Some(h) => h,
                    None => 24,
                },
            ),
        },
    }
}

fn dimension(v: Option<&str>) -> (r: Option<u16>)
    ensures
        r == env_dimension(match v {
            Some(s) => Some(s@),
            None => None,
        }),
{
    match v {
        Some(s) => match parse_u64(s) {
            Some(n) => if 0 < n && n <= 65535 {
                Some(n as u16)
            } else {
                None
            },
            None => None,
        },
        None => None,
    }
}

impl Terminal {
    /// The size to draw in, from the values of `TRY_WIDTH` and `TRY_HEIGHT`
    /// and the terminal's own size, when it can be read.
    pub fn size_from(width_env: Option<&str>, height_env: Option<&str>, term: Option<(u16, u16)>) -> (r: (u16, u16))
        ensures
            r == chosen_size(
                env_dimension(match width_env {
                    Some(s) => Some(s@),
                    None => None,
                }),
                env_dimension(match height_env {
                    Some(s) => Some(s@),
                    None => None,
                }),
                term,
            ),
    {
        let width = dimension(width_env);
        let height = dimension(height_env);
        match (width, height) {
            (Some(w), Some(h)) => (w, h),
            _ => match term {
                Some((tw, th)) => (
                    match width {
                        Some(w) => w,
                        None => tw,
                    },
                    match height {
                        Some(h) => h,
                        None => th,
                    },
                ),
                None => (
                    match width {
                        Some(w) => w,
                        None => 80,
                    },
                    match height {
                        Some(h) => h,
                        None => 24,
                    },
                ),
            },
        }
    }
}

} // verus!
