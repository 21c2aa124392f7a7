//! The decision behind auto-flipping a positioned element that would land
//! off-screen: given the parent's box, the element's size and the window's
//! size — all in whole pixels — pick the side whose positional property
//! keeps the element visible, mirroring the preferred side when it would
//! overflow.

use vstd::prelude::*;

verus! {

/// A preferred vertical position: the element hangs below the parent
/// (anchored by `Top`) or sits above it (anchored by `Bottom`), `offset`
/// pixels away.
#[derive(Clone, Copy, Debug, PartialEq, Eq, Structural)]
pub enum VerticalAnchor {
    Top { offset: i64 },
    Bottom { offset: i64 },
}

/// A preferred horizontal position: the element extends to the right of
/// the parent (anchored by `Left`) or to the left of it (anchored by
/// `Right`), `offset` pixels away.
#[derive(Clone, Copy, Debug, PartialEq, Eq, Structural)]
pub enum HorizontalAnchor {
    Left { offset: i64 },
    Right { offset: i64 },
}

/// Which vertical positional property the element ends up with.
#[derive(Clone, Copy, Debug, PartialEq, Eq, Structural)]
pub enum VerticalSide {
    Top,
    Bottom,
}

/// Which horizontal positional property the element ends up with.
#[derive(Clone, Copy, Debug, PartialEq, Eq, Structural)]
pub enum HorizontalSide {
    Left,
    Right,
}

/// Picks the vertical side: a `Top` anchor flips to `Bottom` when the
/// element would run past the window's lower edge, and a `Bottom` anchor
/// flips to `Top` when the element would run past the upper edge.
pub fn flip_vertical(
    anchor: VerticalAnchor,
    parent_top: i64,
    parent_bottom: i64,
    self_height: i64,
    window_height: i64,
) -> (r: VerticalSide)
    requires
        match anchor {
            VerticalAnchor::Top { offset } => i64::MIN <= parent_bottom + offset
                <= i64::MAX && i64::MIN <= parent_bottom + offset + self_height
                <= i64::MAX,
            VerticalAnchor::Bottom { offset } => i64::MIN <= parent_top - offset
                <= i64::MAX && i64::MIN <= parent_top - offset - self_height
                <= i64::MAX,
        },
    ensures
        r == match anchor {
            VerticalAnchor::Top { offset } => {
                if parent_bottom + offset + self_height > window_height {
                    VerticalSide::Bottom
                } else {
                    VerticalSide::Top
                }
            },
            VerticalAnchor::Bottom { offset } => {
                if parent_top - offset - self_height < 0 {
                    VerticalSide::Top
                } else {
                    VerticalSide::Bottom
                }
            },
        },
{
    match anchor {
        VerticalAnchor::Top { offset } => {
            if parent_bottom + offset + self_height > window_height {
                VerticalSide::Bottom
            } else {
                VerticalSide::Top
            }
        },
        VerticalAnchor::Bottom { offset } => {
            if parent_top - offset - self_height < 0 {
                VerticalSide::Top
            } else {
                VerticalSide::Bottom
            }
        },
    }
}

/// Picks the horizontal side: a `Left` anchor flips to `Right` when the
/// element would run past the window's right edge, and a `Right` anchor
/// flips to `Left` when the element would run past the left edge.
pub fn flip_horizontal(
    anchor: HorizontalAnchor,
    parent_left: i64,
    parent_right: i64,
    self_width: i64,
    window_width: i64,
) -> (r: HorizontalSide)
    requires
        match anchor {
            HorizontalAnchor::Left { offset } => i64::MIN <= parent_right + offset
                <= i64::MAX && i64::MIN <= parent_right + offset + self_width
                <= i64::MAX,
            HorizontalAnchor::Right { offset } => i64::MIN <= parent_left - offset
                <= i64::MAX && i64::MIN <= parent_left - offset - self_width
                <= i64::MAX,
        },
    ensures
        r == match anchor {
            HorizontalAnchor::Left { offset } => {
                if parent_right + offset + self_width > window_width {
                    HorizontalSide::Right
                } else {
                    HorizontalSide::Left
                }
            },
            HorizontalAnchor::Right { offset } => {
                if parent_left - offset - self_width < 0 {
                    HorizontalSide::Left
                } else {
                    HorizontalSide::Right
                }
            },
        },
{
    match anchor {
        HorizontalAnchor::Left { offset } => {
            if parent_right + offset + self_width > window_width {
                HorizontalSide::Right
            } else {
                HorizontalSide::Left
            }
        },
        HorizontalAnchor::Right { offset } => {
            if parent_left - offset - self_width < 0 {
                HorizontalSide::Left
            } else {
                HorizontalSide::Right
            }
        },
    }
}

} // verus!
