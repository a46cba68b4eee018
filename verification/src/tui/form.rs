//! The form in which a catalogue is entered.

use vstd::prelude::*;
use crate::config::{CatalogueConfig, CatalogueView};
use crate::text;

verus! {

/// The rows of the form: its fields, then its actions.
#[derive(Debug, Clone, Copy, PartialEq, Eq, Structural)]
pub enum CatalogueCreateItem {
    Name,
    ImagesRoot,
    VideosRoot,
    ImagesTemplate,
    VideosTemplate,
    Create,
    Back,
}

/// The place of a row, counted from the top.
pub open spec fn row_number(item: CatalogueCreateItem) -> int {
    match item {
        CatalogueCreateItem::Name => 0,
        CatalogueCreateItem::ImagesRoot => 1,
        CatalogueCreateItem::VideosRoot => 2,
        CatalogueCreateItem::ImagesTemplate => 3,
        CatalogueCreateItem::VideosTemplate => 4,
        CatalogueCreateItem::Create => 5,
        CatalogueCreateItem::Back => 6,
    }
}

impl CatalogueCreateItem {
    /// The row below, and the last row itself at the end.
    pub fn next(self) -> (r: Self)
        ensures
            row_number(r) == if row_number(self) < 6 {
                row_number(self) + 1
            } else {
                6
            },
    {
        match self {
            Self::Name => Self::ImagesRoot,
            Self::ImagesRoot => Self::VideosRoot,
            Self::VideosRoot => Self::ImagesTemplate,
            Self::ImagesTemplate => Self::VideosTemplate,
            Self::VideosTemplate => Self::Create,
            Self::Create => Self::Back,
            Self::Back => Self::Back,
        }
    }

    /// The row above, and the first row itself at the top.
    pub fn prev(self) -> (r: Self)
        ensures
            row_number(r) == if row_number(self) > 0 {
                row_number(self) - 1
            } else {
                0
            },
    {
        match self {
            Self::Name => Self::Name,
            Self::ImagesRoot => Self::Name,
            Self::VideosRoot => Self::ImagesRoot,
            Self::ImagesTemplate => Self::VideosRoot,
            Self::VideosTemplate => Self::ImagesTemplate,
            Self::Create => Self::VideosTemplate,
            Self::Back => Self::Create,
        }
    }

    /// The place of the row, counted from the top.
    pub fn index(self) -> (r: usize)
        ensures
            r == row_number(self),
    {
        match self {
            Self::Name => 0,
            Self::ImagesRoot => 1,
            Self::VideosRoot => 2,
            Self::ImagesTemplate => 3,
            Self::VideosTemplate => 4,
            Self::Create => 5,
            Self::Back => 6,
        }
    }
}

/// The row at a place.
pub open spec fn row_at(n: int) -> CatalogueCreateItem {
    if n <= 0 {
        CatalogueCreateItem::Name
    } else if n == 1 {
        CatalogueCreateItem::ImagesRoot
    } else if n == 2 {
        CatalogueCreateItem::VideosRoot
    } else if n == 3 {
        CatalogueCreateItem::ImagesTemplate
    } else if n == 4 {
        CatalogueCreateItem::VideosTemplate
    } else if n == 5 {
        CatalogueCreateItem::Create
    } else {
        CatalogueCreateItem::Back
    }
}

/// The folders that a new catalogue starts with.
pub const DEFAULT_TEMPLATE: &'static str = "{yyyy}/{yyyy}-{mm}-{dd}";

/// The form: its fields, the chosen row, and in it the characters before the cursor.
#[derive(Debug)]
pub struct CatalogueForm {
    pub name: String,
    pub images_root: String,
    pub videos_root: String,
    pub images_template: String,
    pub videos_template: String,
    pub item: CatalogueCreateItem,
    pub cursor: usize,
}

/// The contents of a [`CatalogueForm`].
pub struct FormView {
    pub name: Seq<char>,
    pub images_root: Seq<char>,
    pub videos_root: Seq<char>,
    pub images_template: Seq<char>,
    pub videos_template: Seq<char>,
    pub item: CatalogueCreateItem,
    pub cursor: int,
}

impl View for CatalogueForm {
    type V = FormView;

    open spec fn view(&self) -> FormView {
        FormView {
            name: self.name@,
            images_root: self.images_root@,
            videos_root: self.videos_root@,
            images_template: self.images_template@,
            videos_template: self.videos_template@,
            item: self.item,
            cursor: self.cursor as int,
        }
    }
}

/// The form as it is opened.
pub open spec fn blank_form() -> FormView {
    FormView {
        name: Seq::empty(),
        images_root: Seq::empty(),
        videos_root: Seq::empty(),
        images_template: DEFAULT_TEMPLATE@,
        videos_template: DEFAULT_TEMPLATE@,
        item: CatalogueCreateItem::Name,
        cursor: 0,
    }
}

impl FormView {
    /// The text of a row, where it is a field.
    pub open spec fn field(self, item: CatalogueCreateItem) -> Option<Seq<char>> {
        match item {
            CatalogueCreateItem::Name => Some(self.name),
            CatalogueCreateItem::ImagesRoot => Some(self.images_root),
            CatalogueCreateItem::VideosRoot => Some(self.videos_root),
            CatalogueCreateItem::ImagesTemplate => Some(self.images_template),
            CatalogueCreateItem::VideosTemplate => Some(self.videos_template),
            CatalogueCreateItem::Create => None,
            CatalogueCreateItem::Back => None,
        }
    }

    /// The form with another text in the chosen field.
    pub open spec fn with_field(self, s: Seq<char>) -> FormView {
        match self.item {
            CatalogueCreateItem::Name => FormView { name: s, ..self },
            CatalogueCreateItem::ImagesRoot => FormView { images_root: s, ..self },
            CatalogueCreateItem::VideosRoot => FormView { videos_root: s, ..self },
            CatalogueCreateItem::ImagesTemplate => FormView { images_template: s, ..self },
            CatalogueCreateItem::VideosTemplate => FormView { videos_template: s, ..self },
            CatalogueCreateItem::Create => self,
            CatalogueCreateItem::Back => self,
        }
    }

    /// The cursor stands in the chosen field or at its end.
    pub open spec fn wf(self) -> bool {
        match self.field(self.item) {
            Some(s) => 0 <= self.cursor <= s.len(),
            None => self.cursor == 0,
        }
    }

    /// The form with another row chosen, the cursor at its end.
    pub open spec fn selected(self, item: CatalogueCreateItem) -> FormView {
        FormView {
            item,
            cursor: match self.field(item) {
                Some(s) => s.len() as int,
                None => 0,
            },
            ..self
        }
    }

    /// The form with the cursor one character to the left.
    pub open spec fn left(self) -> FormView {
        match self.field(self.item) {
            Some(s) => FormView {
                cursor: if self.cursor > 0 {
                    self.cursor - 1
                } else {
                    0
                },
                ..self
            },
            None => self,
        }
    }

    /// The form with the cursor one character to the right.
    pub open spec fn right(self) -> FormView {
        match self.field(self.item) {
            Some(s) => FormView {
                cursor: if self.cursor < s.len() {
                    self.cursor + 1
                } else {
                    self.cursor
                },
                ..self
            },
            None => self,
        }
    }

    /// The form with a character typed at the cursor, unless the cursor could not move on.
    pub open spec fn typed(self, c: char) -> FormView {
        match self.field(self.item) {
            Some(s) => if self.cursor < usize::MAX {
                FormView { cursor: self.cursor + 1, ..self.with_field(s.insert(self.cursor, c)) }
            } else {
                self
            },
            None => self,
        }
    }

    /// The form without the character before the cursor.
    pub open spec fn backspaced(self) -> FormView {
        match self.field(self.item) {
            Some(s) => if self.cursor > 0 {
                FormView { cursor: self.cursor - 1, ..self.with_field(s.remove(self.cursor - 1)) }
            } else {
                self
            },
            None => self,
        }
    }

    /// The form without the character at the cursor.
    pub open spec fn deleted(self) -> FormView {
        match self.field(self.item) {
            Some(s) => if self.cursor < s.len() {
                self.with_field(s.remove(self.cursor))
            } else {
                self
            },
            None => self,
        }
    }

    /// The catalogue that the form describes.
    pub open spec fn catalogue(self) -> CatalogueView {
        CatalogueView {
            images_root: text::trimmed(self.images_root),
            videos_root: text::trimmed(self.videos_root),
            images_template: text::trimmed(self.images_template),
            videos_template: text::trimmed(self.videos_template),
        }
    }
}

impl CatalogueForm {
    /// The form as it is opened.
    pub fn new() -> (r: Self)
        ensures
            r@ == blank_form(),
            r@.wf(),
    {
        let r = CatalogueForm {
            name: String::new(),
            images_root: String::new(),
            videos_root: String::new(),
            images_template: text::copy_str(DEFAULT_TEMPLATE),
            videos_template: text::copy_str(DEFAULT_TEMPLATE),
            item: CatalogueCreateItem::Name,
            cursor: 0,
        };
        proof {
            assert(r@.name =~= Seq::<char>::empty());
            assert(r@.images_root =~= Seq::<char>::empty());
            assert(r@.videos_root =~= Seq::<char>::empty());
        }
        r
    }

    fn chars_of(&self, item: CatalogueCreateItem) -> (r: Option<Vec<char>>)
        ensures
            match r {
                Some(v) => self@.field(item) == Some(v@),
                None => self@.field(item) is None,
            },
    {
        match item {
            CatalogueCreateItem::Name => Some(text::to_chars(self.name.as_str())),
            CatalogueCreateItem::ImagesRoot => Some(text::to_chars(self.images_root.as_str())),
            CatalogueCreateItem::VideosRoot => Some(text::to_chars(self.videos_root.as_str())),
            CatalogueCreateItem::ImagesTemplate => Some(
                text::to_chars(self.images_template.as_str()),
            ),
            CatalogueCreateItem::VideosTemplate => Some(
                text::to_chars(self.videos_template.as_str()),
            ),
            CatalogueCreateItem::Create => None,
            CatalogueCreateItem::Back => None,
        }
    }

    fn put(&mut self, chars: &Vec<char>)
        ensures
            final(self)@ == old(self)@.with_field(chars@),
    {
        let s = text::from_chars(chars, 0, chars.len());
        proof {
            assert(s@ =~= chars@);
        }
        match self.item {
            CatalogueCreateItem::Name => {
                self.name = s;
            },
            CatalogueCreateItem::ImagesRoot => {
                self.images_root = s;
            },
            CatalogueCreateItem::VideosRoot => {
                self.videos_root = s;
            },
            CatalogueCreateItem::ImagesTemplate => {
                self.images_template = s;
            },
            CatalogueCreateItem::VideosTemplate => {
                self.videos_template = s;
            },
            CatalogueCreateItem::Create => {},
            CatalogueCreateItem::Back => {},
        }
    }

    /// Chooses a row and sets the cursor to its end.
    pub fn select(&mut self, item: CatalogueCreateItem)
        ensures
            final(self)@ == old(self)@.selected(item),
            final(self)@.wf(),
    {
        let end: usize = match self.chars_of(item) {
            Some(v) => v.len(),
            None => 0,
        };
        self.item = item;
        self.cursor = end;
    }

    /// Moves the cursor one character to the left.
    pub fn cursor_left(&mut self)
        requires
            old(self)@.wf(),
        ensures
            final(self)@ == old(self)@.left(),
            final(self)@.wf(),
    {
        if self.cursor > 0 {
            self.cursor = self.cursor - 1;
        }
    }

    /// Moves the cursor one character to the right.
    pub fn cursor_right(&mut self)
        requires
            old(self)@.wf(),
        ensures
            final(self)@ == old(self)@.right(),
            final(self)@.wf(),
    {
        match self.chars_of(self.item) {
            Some(v) => {
                let n: usize = v.len();
                if self.cursor < n {
                    self.cursor = self.cursor + 1;
                }
            },
            None => {},
        }
    }

    /// Types a character at the cursor.
    pub fn insert(&mut self, c: char)
        requires
            old(self)@.wf(),
        ensures
            final(self)@ == old(self)@.typed(c),
            final(self)@.wf(),
    {
        if self.cursor == usize::MAX {
            return;
        }
        match self.chars_of(self.item) {
            Some(v) => {
                let mut chars = v;
                chars.insert(self.cursor, c);
                self.put(&chars);
                self.cursor = self.cursor + 1;
            },
            None => {},
        }
    }

    /// Deletes the character before the cursor.
    pub fn backspace(&mut self)
        requires
            old(self)@.wf(),
        ensures
            final(self)@ == old(self)@.backspaced(),
            final(self)@.wf(),
    {
        match self.chars_of(self.item) {
            Some(v) => {
                if self.cursor > 0 {
                    let mut chars = v;
                    let at: usize = self.cursor - 1;
                    let _gone = chars.remove(at);
                    self.put(&chars);
                    self.cursor = at;
                }
            },
            None => {},
        }
    }

    /// Deletes the character at the cursor.
    pub fn delete(&mut self)
        requires
            old(self)@.wf(),
        ensures
            final(self)@ == old(self)@.deleted(),
            final(self)@.wf(),
    {
        match self.chars_of(self.item) {
            Some(v) => {
                if self.cursor < v.len() {
                    let mut chars = v;
                    let _gone = chars.remove(self.cursor);
                    self.put(&chars);
                }
            },
            None => {},
        }
    }

    /// The catalogue that the form describes: its fields without the white space round
    /// them.
    pub fn catalogue(&self) -> (r: CatalogueConfig)
        ensures
            r@ == self@.catalogue(),
    {
        CatalogueConfig {
            images_root: text::trim(self.images_root.as_str()),
            videos_root: text::trim(self.videos_root.as_str()),
            images_template: text::trim(self.images_template.as_str()),
            videos_template: text::trim(self.videos_template.as_str()),
        }
    }
}

// ---------------------------------------------------------------------------
// Laws
// ---------------------------------------------------------------------------

/// Deleting back takes away what was just typed, and nothing else.
pub proof fn law_backspace_undoes_typing(f: FormView, c: char)
    requires
        f.wf(),
        f.cursor < usize::MAX,
    ensures
        f.typed(c).wf(),
        f.typed(c).backspaced() == f,
{
    if let Some(s) = f.field(f.item) {
        assert(s.insert(f.cursor, c).remove(f.cursor) =~= s);
    }
}

/// Deleting ahead after a step to the left takes away what was just typed as well.
pub proof fn law_delete_undoes_typing(f: FormView, c: char)
    requires
        f.wf(),
        f.cursor < usize::MAX,
    ensures
        f.typed(c).left().deleted() == f,
{
    if let Some(s) = f.field(f.item) {
        assert(s.insert(f.cursor, c).remove(f.cursor) =~= s);
    }
}

/// The cursor comes back from a step to the left by a step to the right.
pub proof fn law_cursor_steps_undo_each_other(f: FormView)
    requires
        f.wf(),
    ensures
        f.cursor > 0 ==> f.left().right() == f,
        f.right() != f ==> f.right().left() == f,
{
}

/// Editing changes the chosen field alone.
pub proof fn law_editing_stays_in_the_field(f: FormView, c: char, item: CatalogueCreateItem)
    requires
        f.wf(),
        item != f.item,
    ensures
        f.typed(c).field(item) == f.field(item),
        f.backspaced().field(item) == f.field(item),
        f.deleted().field(item) == f.field(item),
        f.typed(c).item == f.item,
        f.backspaced().item == f.item,
        f.deleted().item == f.item,
{
}

/// Every row that is a field shows its own field, and the catalogue of the form has each field
/// in its own place, without white space at its ends.
pub proof fn law_fields_have_their_rows(f: CatalogueForm)
    ensures
        f@.field(CatalogueCreateItem::Name) == Some(f.name@),
        f@.field(CatalogueCreateItem::ImagesRoot) == Some(f.images_root@),
        f@.field(CatalogueCreateItem::VideosRoot) == Some(f.videos_root@),
        f@.field(CatalogueCreateItem::ImagesTemplate) == Some(f.images_template@),
        f@.field(CatalogueCreateItem::VideosTemplate) == Some(f.videos_template@),
        f@.field(CatalogueCreateItem::Create) is None,
        f@.field(CatalogueCreateItem::Back) is None,
        f@.catalogue().images_root == text::trimmed(f.images_root@),
        f@.catalogue().videos_root == text::trimmed(f.videos_root@),
        f@.catalogue().images_template == text::trimmed(f.images_template@),
        f@.catalogue().videos_template == text::trimmed(f.videos_template@),
{
}

/// A character is typed where the cursor stands, and the cursor moves behind it; deleting takes
/// away the character before the cursor or the one at it, and nothing else of the field.
pub proof fn law_editing_happens_at_the_cursor(f: FormView, c: char, s: Seq<char>)
    requires
        f.wf(),
        f.cursor < usize::MAX,
        f.field(f.item) == Some(s),
    ensures
        f.typed(c).field(f.item) == Some(s.take(f.cursor) + seq![c] + s.skip(f.cursor)),
        f.typed(c).cursor == f.cursor + 1,
        f.cursor > 0 ==> f.backspaced().field(f.item) == Some(
            s.take(f.cursor - 1) + s.skip(f.cursor),
        ) && f.backspaced().cursor == f.cursor - 1,
        f.cursor == 0 ==> f.backspaced() == f,
        f.cursor < s.len() ==> f.deleted().field(f.item) == Some(
            s.take(f.cursor) + s.skip(f.cursor + 1),
        ) && f.deleted().cursor == f.cursor,
        f.cursor == s.len() ==> f.deleted() == f,
        f.left().cursor == if f.cursor > 0 {
            f.cursor - 1
        } else {
            0
        },
        f.right().cursor == if f.cursor < s.len() {
            f.cursor + 1
        } else {
            f.cursor
        },
{
    assert(s.insert(f.cursor, c) =~= s.take(f.cursor) + seq![c] + s.skip(f.cursor));
    if f.cursor > 0 {
        assert(s.remove(f.cursor - 1) =~= s.take(f.cursor - 1) + s.skip(f.cursor));
    }
    if f.cursor < s.len() {
        assert(s.remove(f.cursor) =~= s.take(f.cursor) + s.skip(f.cursor + 1));
    }
}

/// The rows stand in the order name, images, videos, their layouts, create, back; choosing one
/// puts the cursor at the end of its text and changes no field.
pub proof fn law_rows_have_their_order(f: FormView, item: CatalogueCreateItem, n: int)
    ensures
        row_at(row_number(item)) == item,
        0 <= row_number(item) <= 6,
        0 <= n <= 6 ==> row_number(row_at(n)) == n,
        row_number(CatalogueCreateItem::Name) < row_number(CatalogueCreateItem::ImagesRoot),
        row_number(CatalogueCreateItem::ImagesRoot) < row_number(CatalogueCreateItem::VideosRoot),
        row_number(CatalogueCreateItem::VideosRoot) < row_number(
            CatalogueCreateItem::ImagesTemplate,
        ),
        row_number(CatalogueCreateItem::ImagesTemplate) < row_number(
            CatalogueCreateItem::VideosTemplate,
        ),
        row_number(CatalogueCreateItem::VideosTemplate) < row_number(CatalogueCreateItem::Create),
        row_number(CatalogueCreateItem::Create) < row_number(CatalogueCreateItem::Back),
        f.selected(item).item == item,
        f.selected(item).wf(),
        f.field(item) matches Some(s) ==> f.selected(item).cursor == s.len(),
        f.selected(item).name == f.name && f.selected(item).images_root == f.images_root
            && f.selected(item).videos_root == f.videos_root && f.selected(item).images_template
            == f.images_template && f.selected(item).videos_template == f.videos_template,
{
}

} // verus!
