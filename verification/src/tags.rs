//! One view of the tags of a file, of whichever kinds it has.

use vstd::prelude::*;
use vstd::string::StringExecFns;

use crate::id3::frame::FrameId;
use crate::id3::v1::{spec_date, Genre, Id3v1, Id3v1View};
use crate::id3::v2::{spec_field, spec_release_date, Tag, TagView};
use crate::timestamp::{spec_parse, Fields, Timestamp};
use crate::vcomment::{spec_first, Vcomment, VcommentView};

verus! {

/// A view of the tags of a file, of whichever kinds it has. A field is
/// taken from the ID3v2 tag where it has the field, else from the ID3v1
/// tag, else from the Vorbis comment: the first tag that is there and has
/// the field answers.
#[derive(Clone, Copy, Debug)]
pub struct TagsRef<'a> {
    pub id3v1: Option<&'a Id3v1>,
    pub id3v2: Option<&'a Tag>,
    pub vcomment: Option<&'a Vcomment>,
}

pub struct TagsView {
    pub id3v1: Option<Id3v1View>,
    pub id3v2: Option<TagView>,
    pub vcomment: Option<VcommentView>,
}

impl View for TagsRef<'_> {
    type V = TagsView;

    open spec fn view(&self) -> TagsView {
        TagsView {
            id3v1: match self.id3v1 {
                Some(t) => Some(t@),
                None => None,
            },
            id3v2: match self.id3v2 {
                Some(t) => Some(t@),
                None => None,
            },
            vcomment: match self.vcomment {
                Some(t) => Some(t@),
                None => None,
            },
        }
    }
}

/// What a tag answers, nothing where the tag is absent.
pub open spec fn answer<V, T>(tag: Option<V>, f: spec_fn(V) -> Option<T>) -> Option<T> {
    match tag {
        Some(v) => f(v),
        None => None,
    }
}

/// The first answer in the order of the tags: that of the ID3v2 tag,
/// else that of the ID3v1 tag, else that of the Vorbis comment. A tag that
/// is absent or lacks the field gives way to the next.
pub open spec fn spec_choose<T>(
    t: TagsView,
    id3v2: spec_fn(TagView) -> Option<T>,
    id3v1: spec_fn(Id3v1View) -> Option<T>,
    vcomment: spec_fn(VcommentView) -> Option<T>,
) -> Option<T> {
    if answer(t.id3v2, id3v2) is Some {
        answer(t.id3v2, id3v2)
    } else if answer(t.id3v1, id3v1) is Some {
        answer(t.id3v1, id3v1)
    } else {
        answer(t.vcomment, vcomment)
    }
}

/// The genre of an ID3v1 tag: the text of its extended block where there
/// is one, else the text of its genre number.
pub open spec fn spec_v1_genre(t: Id3v1View) -> Option<Seq<char>> {
    match t.ext {
        Some(e) => Some(e.genre),
        None => match t.genre {
            Some(g) => Some(Genre::spec_text(g)),
            None => None,
        },
    }
}

pub open spec fn spec_title(t: TagsView) -> Option<Seq<char>> {
    spec_choose(
        t,
        |v: TagView| spec_field(v, FrameId::TITLE, FrameId::V22_TITLE),
        |v: Id3v1View|
            Some(
                match v.ext {
                    Some(e) => e.title,
                    None => v.title,
                },
            ),
        |v: VcommentView| spec_first(v.entries, "TITLE"@),
    )
}

pub open spec fn spec_artist(t: TagsView) -> Option<Seq<char>> {
    spec_choose(
        t,
        |v: TagView| spec_field(v, FrameId::ARTIST, FrameId::V22_ARTIST),
        |v: Id3v1View|
            Some(
                match v.ext {
                    Some(e) => e.artist,
                    None => v.artist,
                },
            ),
        |v: VcommentView| spec_first(v.entries, "ARTIST"@),
    )
}

pub open spec fn spec_album(t: TagsView) -> Option<Seq<char>> {
    spec_choose(
        t,
        |v: TagView| spec_field(v, FrameId::ALBUM, FrameId::V22_ALBUM),
        |v: Id3v1View|
            Some(
                match v.ext {
                    Some(e) => e.album,
                    None => v.album,
                },
            ),
        |v: VcommentView| spec_first(v.entries, "ALBUM"@),
    )
}

pub open spec fn spec_genre(t: TagsView) -> Option<Seq<char>> {
    spec_choose(
        t,
        |v: TagView| spec_field(v, FrameId::CONTENT_TYPE, FrameId::V22_CONTENT_TYPE),
        |v: Id3v1View| spec_v1_genre(v),
        |v: VcommentView| spec_first(v.entries, "GENRE"@),
    )
}

pub open spec fn spec_tags_date(t: TagsView) -> Option<Fields> {
    spec_choose(
        t,
        |v: TagView| spec_release_date(v),
        |v: Id3v1View| spec_date(v),
        |v: VcommentView|
            match spec_first(v.entries, "DATE"@) {
                Some(s) => spec_parse(s),
                None => None,
            },
    )
}

pub open spec fn opt_string(s: Option<String>) -> Option<Seq<char>> {
    match s {
        Some(t) => Some(t@),
        None => None,
    }
}

fn owned(s: Option<&str>) -> (r: Option<String>)
    ensures
        opt_string(r) == (match s {
            Some(t) => Some(t@),
            None => None,
        }),
{
    match s {
        Some(t) => Some(String::from_str(t)),
        None => None,
    }
}

impl<'a> TagsRef<'a> {
    /// A view of the given tags.
    pub fn new(
        id3v1: Option<&'a Id3v1>,
        id3v2: Option<&'a Tag>,
        vcomment: Option<&'a Vcomment>,
    ) -> (r: TagsRef<'a>)
        ensures
            r.id3v1 == id3v1,
            r.id3v2 == id3v2,
            r.vcomment == vcomment,
    {
        TagsRef { id3v1, id3v2, vcomment }
    }

    pub fn title(&self) -> (r: Option<String>)
        ensures
            opt_string(r) == spec_title(self@),
    {
        if let Some(v) = self.id3v2 {
            if let Some(s) = v.title() {
                return Some(String::from_str(s));
            }
        }
        if let Some(v) = self.id3v1 {
            return Some(String::from_str(v.best_title()));
        }
        match self.vcomment {
            Some(v) => owned(v.title()),
            None => None,
        }
    }

    pub fn artist(&self) -> (r: Option<String>)
        ensures
            opt_string(r) == spec_artist(self@),
    {
        if let Some(v) = self.id3v2 {
            if let Some(s) = v.artist() {
                return Some(String::from_str(s));
            }
        }
        if let Some(v) = self.id3v1 {
            return Some(String::from_str(v.best_artist()));
        }
        match self.vcomment {
            Some(v) => owned(v.artist()),
            None => None,
        }
    }

    pub fn album(&self) -> (r: Option<String>)
        ensures
            opt_string(r) == spec_album(self@),
    {
        if let Some(v) = self.id3v2 {
            if let Some(s) = v.album() {
                return Some(String::from_str(s));
            }
        }
        if let Some(v) = self.id3v1 {
            return Some(String::from_str(v.best_album()));
        }
        match self.vcomment {
            Some(v) => owned(v.album()),
            None => None,
        }
    }

    pub fn genre(&self) -> (r: Option<String>)
        ensures
            opt_string(r) == spec_genre(self@),
    {
        if let Some(v) = self.id3v2 {
            if let Some(s) = v.genre() {
                return Some(String::from_str(s));
            }
        }
        if let Some(v) = self.id3v1 {
            if let Some(ext) = &v.ext {
                return Some(String::from_str(ext.genre.as_str()));
            } else if let Some(g) = v.genre {
                return Some(g.to_string());
            }
        }
        match self.vcomment {
            Some(v) => owned(v.genre()),
            None => None,
        }
    }

    pub fn date(&self) -> (r: Option<Timestamp>)
        ensures
            (match r {
                Some(t) => Some(t@),
                None => None,
            }) == spec_tags_date(self@),
    {
        if let Some(v) = self.id3v2 {
            if let Some(t) = v.release_date() {
                return Some(t);
            }
        }
        if let Some(v) = self.id3v1 {
            if let Some(t) = v.date() {
                return Some(t);
            }
        }
        match self.vcomment {
            Some(v) => v.date(),
            None => None,
        }
    }
}

} // verus!
