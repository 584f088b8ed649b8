//! The media player tile: which player is shown and where its cover image
//! comes from.
use vstd::prelude::*;
use crate::launchers::MprisData;
use crate::paths::{join, path_join};
use crate::text::{chars_of, split, split_string, starts_with, starts_with_str, string_of};

verus! {

/// A media player and what it reports.
pub struct MusicPlayerLauncher {
    pub player: String,
    pub mpris: MprisData,
}

/// The first bus name that belongs to a media player.
pub open spec fn first_player(names: Seq<String>) -> Option<Seq<char>>
    decreases names.len(),
{
    if names.len() == 0 {
        None
    } else if starts_with(names[0]@, "org.mpris.MediaPlayer2."@) {
        Some(names[0]@)
    } else {
        first_player(names.drop_first())
    }
}

/// The player shown, from the names on the session bus.
pub fn current_player(names: &Vec<String>) -> (r: Option<String>)
    ensures
        match r {
            Some(p) => first_player(names@) == Some(p@),
            None => first_player(names@) is None,
        },
{
    let mut i: usize = 0;
    assert(names@.skip(0) =~= names@);
    while i < names.len()
        invariant
            i <= names@.len(),
            first_player(names@) == first_player(names@.skip(i as int)),
        decreases names@.len() - i,
    {
        assert(names@.skip(i as int).drop_first() =~= names@.skip(i + 1));
        assert(names@.skip(i as int)[0] == names@[i as int]);
        if starts_with_str(names[i].as_str(), "org.mpris.MediaPlayer2.") {
            return Some(names[i].clone());
        }
        i = i + 1;
    }
    assert(names@.skip(i as int) =~= Seq::<String>::empty());
    None
}

/// The name a cover is cached under: the last `/`-separated part of its
/// address.
pub open spec fn cover_name_spec(art: Seq<char>) -> Seq<char> {
    split(art, '/').last()
}

pub fn cover_name(art: &str) -> (r: String)
    ensures
        r@ == cover_name_spec(art@),
{
    let parts = split_string(art, '/');
    proof {
        crate::text::lemma_split_nonempty(art@, '/');
    }
    parts[parts.len() - 1].clone()
}

/// Where a cover is cached, under the home directory.
pub fn cover_cache_path(home: &str, name: &str) -> (r: String)
    ensures
        r@ == path_join(path_join(home@, ".sherlock/mpris-cache/"@), name@),
{
    let dir = join(home, ".sherlock/mpris-cache/");
    join(dir.as_str(), name)
}

/// `s` without any number of leading `prefix`es.
pub open spec fn strip_all(s: Seq<char>, prefix: Seq<char>) -> Seq<char>
    decreases s.len(),
{
    if prefix.len() > 0 && starts_with(s, prefix) {
        strip_all(s.skip(prefix.len() as int), prefix)
    } else {
        s
    }
}

/// Where an uncached cover comes from.
pub enum CoverSource {
    /// A local file: its path.
    File(String),
    /// An address to download.
    Download(String),
}

/// An address that starts with `file` is read from disk, with every
/// leading `file://` dropped; any other is downloaded.
pub fn cover_source(art: &str) -> (r: CoverSource)
    ensures
        if starts_with(art@, "file"@) {
            r matches CoverSource::File(p) && p@ == strip_all(art@, "file://"@)
        } else {
            r matches CoverSource::Download(u) && u@ == art@
        },
{
    proof {
        reveal_strlit("file://");
    }
    if starts_with_str(art, "file") {
        let mut v = chars_of(art);
        let prefix = chars_of("file://");
        while crate::text::starts_with_chars(v.as_slice(), prefix.as_slice())
            invariant
                prefix@ == "file://"@,
                prefix@.len() == 7,
                strip_all(art@, "file://"@) == strip_all(v@, "file://"@),
            decreases v@.len(),
        {
            proof {
                reveal_strlit("file://");
            }
            let rest = vstd::slice::slice_subrange(v.as_slice(), 7, v.len());
            assert(rest@ =~= v@.skip(7));
            v = vstd::slice::slice_to_vec(rest);
        }
        CoverSource::File(string_of(v.as_slice()))
    } else {
        CoverSource::Download(String::from_str(art))
    }
}

} // verus!
