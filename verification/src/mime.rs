//! The registry of supported video types.
//!
//! A registry pairs file extensions with the MIME type strings a metadata
//! probe may answer with.  It is immutable once built, must hold at least
//! one entry, extensions must be non-empty words and pairwise distinct; a
//! list that breaks any of that is refused, so a crawl never starts with an
//! unusable registry.

use vstd::prelude::*;
use vstd::string::StringExecFns;

use crate::config::opt_view;
use crate::text::check_word_chars_in;
use crate::text::chars_of;
use crate::text::word_chars_in;

verus! {

/// The mathematical view of one registry entry.
pub ghost struct MimeEntryView {
    pub extension: Seq<char>,
    pub mime: Seq<char>,
}

/// One supported video type: a file extension and its MIME type string.
#[derive(Debug)]
pub struct MimeEntry {
    /// The file extension, without the dot.
    pub extension: String,
    /// The MIME type string a probe must answer with, exactly.
    pub mime: String,
}

impl View for MimeEntry {
    type V = MimeEntryView;

    open spec fn view(&self) -> MimeEntryView {
        MimeEntryView { extension: self.extension@, mime: self.mime@ }
    }
}

/// A registry entry is usable when its extension is a non-empty word.
pub open spec fn entry_ok(e: MimeEntryView) -> bool {
    e.extension.len() >= 1 && word_chars_in(e.extension, 0, e.extension.len() as int)
}

/// A usable registry: at least one entry, every entry usable, extensions
/// pairwise distinct.
pub open spec fn entries_ok(s: Seq<MimeEntryView>) -> bool {
    &&& s.len() >= 1
    &&& forall|i: int| 0 <= i < s.len() ==> entry_ok(#[trigger] s[i])
    &&& forall|i: int, j: int|
        0 <= i < j < s.len() ==> (#[trigger] s[i]).extension != (#[trigger] s[j]).extension
}

/// The views of a list of entries, in order.
pub open spec fn views_of(entries: Seq<MimeEntry>) -> Seq<MimeEntryView> {
    entries.map_values(|e: MimeEntry| e@)
}

/// The immutable table of supported video types.
#[derive(Debug)]
pub struct MimeRegistry {
    entries: Vec<MimeEntry>,
}

impl View for MimeRegistry {
    type V = Seq<MimeEntryView>;

    closed spec fn view(&self) -> Seq<MimeEntryView> {
        views_of(self.entries@)
    }
}

/// The registry's extensions, in order.
pub open spec fn ext_seqs(r: Seq<MimeEntryView>) -> Seq<Seq<char>> {
    r.map_values(|e: MimeEntryView| e.extension)
}

/// Whether some registry entry carries exactly this MIME type string.
pub open spec fn has_mime(r: Seq<MimeEntryView>, m: Seq<char>) -> bool {
    exists|i: int| 0 <= i < r.len() && (#[trigger] r[i]).mime == m
}

impl MimeRegistry {
    /// The registry is usable.
    pub open spec fn wf(&self) -> bool {
        entries_ok(self@)
    }

    /// Builds a registry from the given entries, refusing an empty list, an
    /// entry whose extension is not a non-empty word, and duplicate
    /// extensions.
    pub fn new(entries: Vec<MimeEntry>) -> (r: Option<MimeRegistry>)
        ensures
            r matches Some(reg) ==> reg.wf() && reg@ == views_of(entries@),
            r is None ==> !entries_ok(views_of(entries@)),
    {
        let ghost view = views_of(entries@);
        if entries.len() == 0 {
            return None;
        }
        let mut i: usize = 0;
        while i < entries.len()
            invariant
                i <= entries@.len(),
                view == views_of(entries@),
                forall|k: int| 0 <= k < i ==> entry_ok(#[trigger] view[k]),
            decreases entries@.len() - i,
        {
            let e = &entries[i];
            let ext = chars_of(e.extension.as_str());
            if ext.len() == 0 {
                proof {
                    assert(!entry_ok(view[i as int]));
                }
                return None;
            }
            if !check_word_chars_in(&ext, 0, ext.len()) {
                proof {
                    assert(!entry_ok(view[i as int]));
                }
                return None;
            }
            i += 1;
        }
        let mut a: usize = 0;
        while a < entries.len()
            invariant
                a <= entries@.len(),
                view == views_of(entries@),
                forall|p: int, q: int|
                    0 <= p < q < entries@.len() && p < a ==> (#[trigger] view[p]).extension != (
                    #[trigger] view[q]).extension,
            decreases entries@.len() - a,
        {
            let mut b: usize = a + 1;
            while b < entries.len()
                invariant
                    a < b <= entries@.len() || (a + 1 == b && b > entries@.len()),
                    a < entries@.len(),
                    view == views_of(entries@),
                    forall|q: int|
                        a < q < b ==> (#[trigger] view[q]).extension != view[a as int].extension,
                decreases entries@.len() - b,
            {
                if entries[a].extension == entries[b].extension {
                    proof {
                        assert((view[a as int]).extension == (view[b as int]).extension);
                    }
                    return None;
                }
                b += 1;
            }
            a += 1;
        }
        Some(MimeRegistry { entries })
    }

    /// The stock registry: MP4 and QuickTime video.
    pub fn standard() -> (r: MimeRegistry)
        ensures
            r.wf(),
            r@.len() == 2,
            r@[0].extension == "mp4"@,
            r@[0].mime == "video/mp4"@,
            r@[1].extension == "mov"@,
            r@[1].mime == "video/quicktime"@,
    {
        proof {
            reveal_strlit("mp4");
            reveal_strlit("mov");
            reveal_strlit("video/mp4");
            reveal_strlit("video/quicktime");
        }
        let mut entries: Vec<MimeEntry> = Vec::new();
        entries.push(
            MimeEntry { extension: String::from_str("mp4"), mime: String::from_str("video/mp4") },
        );
        entries.push(
            MimeEntry {
                extension: String::from_str("mov"),
                mime: String::from_str("video/quicktime"),
            },
        );
        assert(word_chars_in("mp4"@, 0, 3)) by {
            assert("mp4"@[0] == 'm' && "mp4"@[1] == 'p' && "mp4"@[2] == '4');
        }
        assert(word_chars_in("mov"@, 0, 3)) by {
            assert("mov"@[0] == 'm' && "mov"@[1] == 'o' && "mov"@[2] == 'v');
        }
        assert("mp4"@ != "mov"@) by {
            assert("mp4"@[1] != "mov"@[1]);
        }
        let r = MimeRegistry { entries };
        assert(r@.len() == 2);
        assert(r@[0].extension == "mp4"@);
        r
    }

    /// How many entries the registry holds.
    pub fn count(&self) -> (n: usize)
        ensures
            n == self@.len(),
    {
        self.entries.len()
    }

    /// The extension of the entry at the given position.
    pub fn extension_at(&self, i: usize) -> (r: &String)
        requires
            i < self@.len(),
        ensures
            r@ == self@[i as int].extension,
    {
        &self.entries[i].extension
    }

    /// The MIME type string of the entry at the given position.
    pub fn mime_at(&self, i: usize) -> (r: &String)
        requires
            i < self@.len(),
        ensures
            r@ == self@[i as int].mime,
    {
        &self.entries[i].mime
    }

    /// The characters of every extension, in registry order.
    pub fn extension_chars(&self) -> (r: Vec<Vec<char>>)
        ensures
            r@.len() == self@.len(),
            forall|i: int| 0 <= i < r@.len() ==> (#[trigger] r@[i])@ == self@[i].extension,
    {
        let mut r: Vec<Vec<char>> = Vec::new();
        let mut i: usize = 0;
        let n = self.entries.len();
        while i < n
            invariant
                i <= n,
                n == self@.len(),
                r@.len() == i,
                forall|k: int| 0 <= k < i ==> (#[trigger] r@[k])@ == self@[k].extension,
            decreases n - i,
        {
            let v = chars_of(self.entries[i].extension.as_str());
            r.push(v);
            i += 1;
        }
        r
    }
}

/// What a metadata probe must show for a candidate to count as an
/// existing video: a success status and a content type the registry lists.
pub open spec fn confirms(r: Seq<MimeEntryView>, status: u16, ct: Option<Seq<char>>) -> bool {
    &&& 200 <= status
    &&& status < 300
    &&& match ct {
        Some(m) => has_mime(r, m),
        None => false,
    }
}

/// Decides one metadata probe: the candidate exists exactly when the
/// response status is a success, a content type was answered, and its
/// value equals one of the registry's MIME type strings.  Anything else —
/// including a missing header — reads as "not confirmed"; it is never an
/// error.
#[verifier::loop_isolation(false)]
pub fn does_link_exist(reg: &MimeRegistry, status: u16, content_type: &Option<String>) -> (r:
    bool)
    ensures
        r == confirms(reg@, status, opt_view(*content_type)),
{
    if !(200 <= status && status < 300) {
        return false;
    }
    let ct = match content_type {
        Some(ct) => ct,
        None => {
            return false;
        },
    };
    let n = reg.count();
    let mut i: usize = 0;
    while i < n
        invariant
            i <= n,
            n == reg@.len(),
            forall|k: int| 0 <= k < i ==> (#[trigger] reg@[k]).mime != ct@,
        decreases n - i,
    {
        if *reg.mime_at(i) == *ct {
            proof {
                assert(reg@[i as int].mime == ct@);
                assert(has_mime(reg@, ct@));
                assert(opt_view(*content_type) == Some(ct@));
            }
            return true;
        }
        proof {
            assert(reg@[i as int].mime != ct@);
        }
        i += 1;
    }
    false
}

} // verus!
