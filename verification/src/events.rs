//! The Teams event tile: which calendar database is read, the query that
//! finds the next meeting, and the event shown.
use vstd::prelude::*;
use crate::paths::{file_name, join, path_join};
use crate::text::{chars_of, ends_with, ends_with_str, str_eq};

verus! {

/// A meeting with its link and start time.
pub struct TeamsEvent {
    pub title: String,
    pub meeting_url: String,
    pub time: String,
}

/// The event tile: the meeting found, if any, and its icon.
pub struct EventLauncher {
    pub event: Option<TeamsEvent>,
    pub icon: String,
}

/// Only Thunderbird calendars are read.
pub fn reads_calendar(calendar_client: &str) -> (r: bool)
    ensures
        r == (calendar_client@ == "thunderbird"@),
{
    str_eq(calendar_client, "thunderbird")
}

/// A directory entry: its path and whether it is a directory.
pub struct DirEntry {
    pub path: String,
    pub is_dir: bool,
}

/// The calendar cache of the first profile directory whose name ends in
/// `.default-release`.
pub open spec fn thunderbird_db(entries: Seq<DirEntry>) -> Option<Seq<char>>
    decreases entries.len(),
{
    if entries.len() == 0 {
        None
    } else if entries[0].is_dir && ends_with(file_name(entries[0].path@), ".default-release"@) {
        Some(path_join(path_join(entries[0].path@, "calendar-data"@), "cache.sqlite"@))
    } else {
        thunderbird_db(entries.drop_first())
    }
}

fn name_of(path: &str) -> (r: String)
    ensures
        r@ == file_name(path@),
{
    let n = crate::paths::file_name_of(path);
    crate::text::string_of(n.as_slice())
}

/// Where Thunderbird keeps its calendar cache, from the entries of
/// `~/.thunderbird` in the order they were listed.
pub fn thunderbird_database(entries: &Vec<DirEntry>) -> (r: Option<String>)
    ensures
        match r {
            Some(p) => thunderbird_db(entries@) == Some(p@),
            None => thunderbird_db(entries@) is None,
        },
{
    let mut i: usize = 0;
    assert(entries@.skip(0) =~= entries@);
    while i < entries.len()
        invariant
            i <= entries@.len(),
            thunderbird_db(entries@) == thunderbird_db(entries@.skip(i as int)),
        decreases entries@.len() - i,
    {
        assert(entries@.skip(i as int).drop_first() =~= entries@.skip(i + 1));
        assert(entries@.skip(i as int)[0] == entries@[i as int]);
        let e = &entries[i];
        if e.is_dir {
            let name = name_of(e.path.as_str());
            if ends_with_str(name.as_str(), ".default-release") {
                let dir = join(e.path.as_str(), "calendar-data");
                return Some(join(dir.as_str(), "cache.sqlite"));
            }
        }
        i = i + 1;
    }
    assert(entries@.skip(i as int) =~= Seq::<DirEntry>::empty());
    None
}

/// The ids of the meetings, each in single quotes, separated by `, `.
pub open spec fn quoted_ids(ids: Seq<Seq<char>>) -> Seq<char>
    decreases ids.len(),
{
    if ids.len() == 0 {
        Seq::empty()
    } else if ids.len() == 1 {
        "'"@ + ids[0] + "'"@
    } else {
        quoted_ids(ids.drop_last()) + ", '"@ + ids.last() + "'"@
    }
}

pub fn quote_ids(ids: &Vec<String>) -> (r: String)
    ensures
        r@ == quoted_ids(ids@.map_values(|s: String| s@)),
{
    let ghost all = ids@.map_values(|s: String| s@);
    let mut r = String::new();
    let mut i: usize = 0;
    while i < ids.len()
        invariant
            i <= ids@.len(),
            all == ids@.map_values(|s: String| s@),
            r@ == quoted_ids(all.take(i as int)),
        decreases ids@.len() - i,
    {
        proof {
            assert(all.take(i + 1).drop_last() =~= all.take(i as int));
        }
        if i == 0 {
            r.append("'");
        } else {
            r.append(", '");
        }
        r.append(ids[i].as_str());
        r.append("'");
        proof {
            if i == 0 {
                assert(r@ =~= quoted_ids(all.take(1)));
            }
        }
        i = i + 1;
    }
    assert(all.take(ids@.len() as int) =~= all);
    r
}

/// The query for the first meeting among `ids` that starts between the two
/// times of `date`; none where there are no meetings.
pub open spec fn event_query(ids: Seq<char>, date: Seq<char>, start: Seq<char>, end: Seq<char>) -> Option<
    Seq<char>,
> {
    if ids.len() == 0 {
        None
    } else {
        Some(
            "\n                SELECT id, title, event_start\n                FROM cal_events \n                WHERE id IN ("@
                + ids + ")\n                AND event_start BETWEEN strftime('%s', '"@ + date
                + "', '"@ + start + "') * 1000000 AND strftime('%s', '"@ + date + "', '"@ + end
                + "') * 1000000\n                ORDER BY event_start;\n                "@,
        )
    }
}

pub fn teams_event_query(ids: &str, date: &str, event_start: &str, event_end: &str) -> (r: Option<
    String,
>)
    ensures
        match r {
            Some(q) => event_query(ids@, date@, event_start@, event_end@) == Some(q@),
            None => event_query(ids@, date@, event_start@, event_end@) is None,
        },
{
    if ids.is_empty() {
        return None;
    }
    let mut q = String::from_str(
        "\n                SELECT id, title, event_start\n                FROM cal_events \n                WHERE id IN (",
    );
    q.append(ids);
    q.append(")\n                AND event_start BETWEEN strftime('%s', '");
    q.append(date);
    q.append("', '");
    q.append(event_start);
    q.append("') * 1000000 AND strftime('%s', '");
    q.append(date);
    q.append("', '");
    q.append(event_end);
    q.append("') * 1000000\n                ORDER BY event_start;\n                ");
    Some(q)
}

/// The link of meeting `id`: where the same id was read twice, the later
/// link counts.
pub open spec fn meeting_url(meetings: Seq<(String, String)>, id: Seq<char>) -> Option<Seq<char>>
    decreases meetings.len(),
{
    if meetings.len() == 0 {
        None
    } else if meetings.last().0@ == id {
        Some(meetings.last().1@)
    } else {
        meeting_url(meetings.drop_last(), id)
    }
}

/// The event shown for the first meeting found: its title, its link and
/// its start time; none where its link is unknown.
pub fn event_for(meetings: &Vec<(String, String)>, id: &str, title: String, time: String) -> (r:
    Option<TeamsEvent>)
    ensures
        match r {
            Some(e) => meeting_url(meetings@, id@) == Some(e.meeting_url@) && e.title == title
                && e.time == time,
            None => meeting_url(meetings@, id@) is None,
        },
{
    let mut i: usize = meetings.len();
    assert(meetings@.take(i as int) =~= meetings@);
    while i > 0
        invariant
            i <= meetings@.len(),
            meeting_url(meetings@, id@) == meeting_url(meetings@.take(i as int), id@),
        decreases i,
    {
        let ghost t = meetings@.take(i as int);
        assert(t.drop_last() =~= meetings@.take(i - 1));
        assert(t.last() == meetings@[i - 1]);
        if str_eq(meetings[i - 1].0.as_str(), id) {
            return Some(
                TeamsEvent { title, meeting_url: meetings[i - 1].1.clone(), time },
            );
        }
        i = i - 1;
    }
    None
}

} // verus!
