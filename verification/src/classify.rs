//! Classification of a character region by its number of white pixels.

use vstd::prelude::*;

verus! {

/// A pixel is white when its intensity is above this value.
pub const WHITE_THRESHOLD: u8 = 200;

/// The number of ranges in the table.
pub const RANGE_COUNT: usize = 10;

/// The smallest count of range `k`.
pub open spec fn range_lo(k: int) -> int {
    if k == 0 {
        0
    } else if k == 1 {
        21
    } else if k == 2 {
        36
    } else if k == 3 {
        46
    } else if k == 4 {
        56
    } else if k == 5 {
        66
    } else if k == 6 {
        76
    } else if k == 7 {
        86
    } else if k == 8 {
        96
    } else {
        106
    }
}

/// The largest count of range `k`.
pub open spec fn range_hi(k: int) -> int {
    if k == 0 {
        20
    } else if k == 1 {
        35
    } else if k == 2 {
        45
    } else if k == 3 {
        55
    } else if k == 4 {
        65
    } else if k == 5 {
        75
    } else if k == 6 {
        85
    } else if k == 7 {
        95
    } else if k == 8 {
        105
    } else {
        115
    }
}

/// The digit that range `k` stands for.
pub open spec fn range_digit(k: int) -> char {
    if k == 0 {
        '1'
    } else if k == 1 {
        '7'
    } else if k == 2 {
        '4'
    } else if k == 3 {
        '2'
    } else if k == 4 {
        '3'
    } else if k == 5 {
        '5'
    } else if k == 6 {
        '6'
    } else if k == 7 {
        '8'
    } else if k == 8 {
        '9'
    } else {
        '0'
    }
}

/// Whether `k` is a range of the table and `count` lies in it.
pub open spec fn range_holds(k: int, count: int) -> bool {
    0 <= k < RANGE_COUNT && range_lo(k) <= count <= range_hi(k)
}

/// The digit of the range that holds `count`, if one does.
pub open spec fn classify_spec(count: int) -> Option<char> {
    if exists|k: int| range_holds(k, count) {
        Some(range_digit(choose|k: int| range_holds(k, count)))
    } else {
        None
    }
}

/// Whether an intensity counts as white.
pub open spec fn is_white(p: u8) -> bool {
    p > WHITE_THRESHOLD
}

/// The number of white pixels among `pixels`.
pub open spec fn white_count(pixels: Seq<u8>) -> nat
    decreases pixels.len(),
{
    if pixels.len() == 0 {
        0
    } else {
        white_count(pixels.drop_last()) + if is_white(pixels.last()) {
            1nat
        } else {
            0nat
        }
    }
}

/// The ranges of the table are in ascending order, touch without overlapping
/// and cover the counts from 0 to 115: such a count lies in exactly one
/// range and is classified as that range's digit, and any other count is
/// not recognized. Every digit of the table is one of the ten digits.
pub proof fn lemma_ranges_partition(count: int)
    ensures
        range_lo(0) == 0,
        range_hi(RANGE_COUNT - 1) == 115,
        forall|k: int| 0 <= k < RANGE_COUNT ==> range_lo(k) <= #[trigger] range_hi(k),
        forall|k: int| 0 <= k < RANGE_COUNT - 1 ==> range_lo(k + 1) == #[trigger] range_hi(k) + 1,
        forall|k: int| 0 <= k < RANGE_COUNT ==> '0' <= #[trigger] range_digit(k) <= '9',
        forall|j: int, k: int|
            range_holds(j, count) && range_holds(k, count) ==> j == k,
        forall|k: int| range_holds(k, count) ==> classify_spec(count) == Some(range_digit(k)),
        0 <= count <= 115 <==> classify_spec(count) is Some,
        0 <= count <= 115 <==> exists|k: int| range_holds(k, count),
        classify_spec(count) is Some ==> '0' <= classify_spec(count).unwrap() <= '9',
{
    if 0 <= count <= 115 {
        let k: int = if count <= 20 {
            0
        } else if count <= 35 {
            1
        } else if count <= 45 {
            2
        } else if count <= 55 {
            3
        } else if count <= 65 {
            4
        } else if count <= 75 {
            5
        } else if count <= 85 {
            6
        } else if count <= 95 {
            7
        } else if count <= 105 {
            8
        } else {
            9
        };
        assert(range_holds(k, count));
    }
}

/// Row `k` of the table: its smallest count, its largest count and its digit.
pub fn range_entry(k: usize) -> (r: (u32, u32, char))
    requires
        k < RANGE_COUNT,
    ensures
        r.0 == range_lo(k as int),
        r.1 == range_hi(k as int),
        r.2 == range_digit(k as int),
{
    if k == 0 {
        (0, 20, '1')
    } else if k == 1 {
        (21, 35, '7')
    } else if k == 2 {
        (36, 45, '4')
    } else if k == 3 {
        (46, 55, '2')
    } else if k == 4 {
        (56, 65, '3')
    } else if k == 5 {
        (66, 75, '5')
    } else if k == 6 {
        (76, 85, '6')
    } else if k == 7 {
        (86, 95, '8')
    } else if k == 8 {
        (96, 105, '9')
    } else {
        (106, 115, '0')
    }
}

/// Maps a count of white pixels to its digit by the table.
pub fn classify_count(count: u32) -> (r: Option<char>)
    ensures
        r == classify_spec(count as int),
{
    let mut k: usize = 0;
    while k < RANGE_COUNT
        invariant
            k <= RANGE_COUNT,
            forall|j: int| 0 <= j < k ==> !range_holds(j, count as int),
        decreases RANGE_COUNT - k,
    {
        let (lo, hi, digit) = range_entry(k);
        if lo <= count && count <= hi {
            assert(range_holds(k as int, count as int));
            return Some(digit);
        }
        k += 1;
    }
    None
}

} // verus!
