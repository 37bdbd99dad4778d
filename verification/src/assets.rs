//! The pre-rendered images the compositor draws with: one 80x80 RGB sprite
//! per mark glyph and four 300x300 RGBA strike-through overlays. The caller
//! loads them once at startup; the engine only reads them.

use vstd::prelude::*;

use crate::session::Player;

verus! {

/// Ghost image of the asset set: the raw bytes of each sprite and overlay.
pub struct AssetsView {
    pub first_mark: Seq<u8>,
    pub second_mark: Seq<u8>,
    pub row_overlay: Seq<u8>,
    pub column_overlay: Seq<u8>,
    pub main_diagonal_overlay: Seq<u8>,
    pub anti_diagonal_overlay: Seq<u8>,
}

/// The sprite blitted for `p`'s marks.
pub open spec fn sprite_for(a: AssetsView, p: Player) -> Seq<u8> {
    match p {
        Player::First => a.first_mark,
        Player::Second => a.second_mark,
    }
}

/// The overlay blended for winning line `id`: one shared image for the
/// three rows, one for the three columns, and one for each diagonal.
pub open spec fn overlay_for(a: AssetsView, id: int) -> Seq<u8> {
    if id < 3 {
        a.row_overlay
    } else if id < 6 {
        a.column_overlay
    } else if id == 6 {
        a.main_diagonal_overlay
    } else {
        a.anti_diagonal_overlay
    }
}

pub struct Assets {
    first_mark: Vec<u8>,
    second_mark: Vec<u8>,
    row_overlay: Vec<u8>,
    column_overlay: Vec<u8>,
    main_diagonal_overlay: Vec<u8>,
    anti_diagonal_overlay: Vec<u8>,
}

impl View for Assets {
    type V = AssetsView;

    closed spec fn view(&self) -> AssetsView {
        AssetsView {
            first_mark: self.first_mark@,
            second_mark: self.second_mark@,
            row_overlay: self.row_overlay@,
            column_overlay: self.column_overlay@,
            main_diagonal_overlay: self.main_diagonal_overlay@,
            anti_diagonal_overlay: self.anti_diagonal_overlay@,
        }
    }
}

impl Assets {
    /// Sprites are 80x80 RGB, overlays 300x300 RGBA.
    pub open spec fn wf(&self) -> bool {
        &&& self@.first_mark.len() == 19200
        &&& self@.second_mark.len() == 19200
        &&& self@.row_overlay.len() == 360000
        &&& self@.column_overlay.len() == 360000
        &&& self@.main_diagonal_overlay.len() == 360000
        &&& self@.anti_diagonal_overlay.len() == 360000
    }

    /// Bundle the raw image bytes, in the order: first mover's mark, second
    /// mover's mark, row overlay, column overlay, main-diagonal overlay,
    /// anti-diagonal overlay.
    pub fn new(
        first_mark: Vec<u8>,
        second_mark: Vec<u8>,
        row_overlay: Vec<u8>,
        column_overlay: Vec<u8>,
        main_diagonal_overlay: Vec<u8>,
        anti_diagonal_overlay: Vec<u8>,
    ) -> (r: Assets)
        requires
            first_mark@.len() == 19200,
            second_mark@.len() == 19200,
            row_overlay@.len() == 360000,
            column_overlay@.len() == 360000,
            main_diagonal_overlay@.len() == 360000,
            anti_diagonal_overlay@.len() == 360000,
        ensures
            r.wf(),
            r@ == (AssetsView {
                first_mark: first_mark@,
                second_mark: second_mark@,
                row_overlay: row_overlay@,
                column_overlay: column_overlay@,
                main_diagonal_overlay: main_diagonal_overlay@,
                anti_diagonal_overlay: anti_diagonal_overlay@,
            }),
    {
        Assets {
            first_mark,
            second_mark,
            row_overlay,
            column_overlay,
            main_diagonal_overlay,
            anti_diagonal_overlay,
        }
    }

    pub fn sprite_of(&self, p: Player) -> (r: &Vec<u8>)
        ensures
            r@ == sprite_for(self@, p),
    {
        match p {
            Player::First => &self.first_mark,
            Player::Second => &self.second_mark,
        }
    }

    pub fn overlay_of(&self, id: u8) -> (r: &Vec<u8>)
        requires
            id < 8,
        ensures
            r@ == overlay_for(self@, id as int),
    {
        if id < 3 {
            &self.row_overlay
        } else if id < 6 {
            &self.column_overlay
        } else if id == 6 {
            &self.main_diagonal_overlay
        } else {
            &self.anti_diagonal_overlay
        }
    }
}

} // verus!
