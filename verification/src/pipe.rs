//! Content piped into the launcher: elements to show, read from JSON or from
//! plain lines.
use vstd::prelude::*;
use vstd::string::StringSliceAdditionalSpecFns;
use vstd::utf8::{decode_utf8, encode_utf8_decode_utf8, valid_utf8};
use crate::attrs::AttrMap;
use crate::text::{chars_of, seq_eq, split, split_chars, string_of};

verus! {

/// One element to show.
pub struct PipedElements {
    pub title: Option<String>,
    pub description: Option<String>,
    pub icon: Option<String>,
    pub icon_size: Option<i32>,
    pub result: Option<String>,
    pub binary: Option<Vec<u8>>,
    pub method: Option<String>,
    pub field: Option<String>,
    pub hidden: Option<AttrMap>,
    pub exit: bool,
}

pub open spec fn opt_view(o: Option<String>) -> Option<Seq<char>> {
    match o {
        Some(s) => Some(s@),
        None => None,
    }
}

/// Characters kept in shown text: ASCII that is not a control character,
/// except tab and line feed.
pub open spec fn keep_char(c: char) -> bool {
    c <= '\x7f' && ((' ' <= c && c != '\x7f') || c == '\t' || c == '\n')
}

pub open spec fn clean_text(s: Seq<char>) -> Seq<char> {
    s.filter(|c: char| keep_char(c))
}

pub open spec fn clean_opt(o: Option<Seq<char>>) -> Option<Seq<char>> {
    match o {
        Some(s) => Some(clean_text(s)),
        None => None,
    }
}

fn clean_string(s: &String) -> (r: String)
    ensures
        r@ == clean_text(s@),
{
    let v = chars_of(s.as_str());
    let mut out: Vec<char> = Vec::new();
    let mut i: usize = 0;
    let ghost keep = |c: char| keep_char(c);
    while i < v.len()
        invariant
            i <= v@.len(),
            keep == (|c: char| keep_char(c)),
            out@ == v@.take(i as int).filter(keep),
        decreases v@.len() - i,
    {
        proof {
            assert(v@.take(i + 1).drop_last() =~= v@.take(i as int));
            reveal(Seq::filter);
        }
        let c = v[i];
        if c <= '\x7f' && ((' ' <= c && c != '\x7f') || c == '\t' || c == '\n') {
            out.push(c);
        }
        i = i + 1;
    }
    assert(v@.take(v@.len() as int) =~= v@);
    string_of(&out)
}

impl PipedElements {
    /// Removes from title, description and result every character that is
    /// not shown: non-ASCII ones and control characters other than tab and
    /// line feed.
    pub fn clean(&mut self)
        ensures
            opt_view(final(self).title) == clean_opt(opt_view(old(self).title)),
            opt_view(final(self).description) == clean_opt(opt_view(old(self).description)),
            opt_view(final(self).result) == clean_opt(opt_view(old(self).result)),
            opt_view(final(self).icon) == opt_view(old(self).icon),
            final(self).icon_size == old(self).icon_size,
            final(self).binary == old(self).binary,
            opt_view(final(self).method) == opt_view(old(self).method),
            opt_view(final(self).field) == opt_view(old(self).field),
            final(self).hidden == old(self).hidden,
            final(self).exit == old(self).exit,
    {
        if let Some(t) = &self.title {
            let c = clean_string(t);
            self.title = Some(c);
        }
        if let Some(d) = &self.description {
            let c = clean_string(d);
            self.description = Some(c);
        }
        if let Some(r) = &self.result {
            let c = clean_string(r);
            self.result = Some(c);
        }
    }
}

/// Prepares elements read from JSON for showing: each is cleaned, and those
/// without a method take `default_method`.
pub fn finish_elements(elements: &mut Vec<PipedElements>, default_method: Option<&str>)
    ensures
        final(elements)@.len() == old(elements)@.len(),
        forall|i: int|
            0 <= i < final(elements)@.len() ==> {
                let o = #[trigger] old(elements)@[i];
                let n = final(elements)@[i];
                &&& opt_view(n.title) == clean_opt(opt_view(o.title))
                &&& opt_view(n.description) == clean_opt(opt_view(o.description))
                &&& opt_view(n.result) == clean_opt(opt_view(o.result))
                &&& opt_view(n.icon) == opt_view(o.icon)
                &&& n.icon_size == o.icon_size
                &&& n.binary == o.binary
                &&& opt_view(n.method) == match o.method {
                    Some(m) => Some(m@),
                    None => match default_method {
                        Some(d) => Some(d@),
                        None => None,
                    },
                }
                &&& opt_view(n.field) == opt_view(o.field)
                &&& n.hidden == o.hidden
                &&& n.exit == o.exit
            },
{
    let ghost olds = elements@;
    let n = elements.len();
    let mut i: usize = 0;
    while i < n
        invariant
            n == olds.len() == elements@.len(),
            i <= n,
            forall|j: int| i <= j < n ==> elements@[j] == olds[j],
            forall|j: int|
                0 <= j < i ==> {
                    let o = #[trigger] olds[j];
                    let e = elements@[j];
                    &&& opt_view(e.title) == clean_opt(opt_view(o.title))
                    &&& opt_view(e.description) == clean_opt(opt_view(o.description))
                    &&& opt_view(e.result) == clean_opt(opt_view(o.result))
                    &&& opt_view(e.icon) == opt_view(o.icon)
                    &&& e.icon_size == o.icon_size
                    &&& e.binary == o.binary
                    &&& opt_view(e.method) == match o.method {
                        Some(m) => Some(m@),
                        None => match default_method {
                            Some(d) => Some(d@),
                            None => None,
                        },
                    }
                    &&& opt_view(e.field) == opt_view(o.field)
                    &&& e.hidden == o.hidden
                    &&& e.exit == o.exit
                },
        decreases n - i,
    {
        let mut item = elements.remove(i);
        item.clean();
        if item.method.is_none() {
            item.method = match default_method {
                Some(d) => Some(String::from_str(d)),
                None => None,
            };
        }
        elements.insert(i, item);
        i = i + 1;
    }
}

/// `std::str::from_utf8`, keeping the string where the bytes are UTF-8.
///
/// Trusted: as documented, the call succeeds exactly when `bytes` is valid
/// UTF-8, and the string it gives back has exactly these bytes.
#[verifier::external_body]
fn utf8_str(bytes: &[u8]) -> (r: Option<&str>)
    ensures
        r is Some <==> valid_utf8(bytes@),
        r matches Some(s) ==> s.spec_bytes() == bytes@,
{
    std::str::from_utf8(bytes).ok()
}

/// The chunks of piped bytes: each line keeps its line feed; the last one
/// may lack it.
pub open spec fn chunks(buf: Seq<u8>) -> Seq<Seq<u8>>
    decreases buf.len(),
{
    if buf.len() == 0 {
        Seq::empty()
    } else {
        match index_of_byte(buf, 10) {
            Some(k) => {
                proof {
                    lemma_index_of_byte(buf, 10);
                }
                seq![buf.take(k + 1)] + chunks(buf.skip(k + 1))
            },
            None => seq![buf],
        }
    }
}

/// Position of the first `b` in `s`.
pub open spec fn index_of_byte(s: Seq<u8>, b: u8) -> Option<int>
    decreases s.len(),
{
    if s.len() == 0 {
        None
    } else if s[0] == b {
        Some(0)
    } else {
        match index_of_byte(s.drop_first(), b) {
            Some(i) => Some(i + 1),
            None => None,
        }
    }
}

pub proof fn lemma_index_of_byte(s: Seq<u8>, b: u8)
    ensures
        match index_of_byte(s, b) {
            Some(i) => 0 <= i < s.len() && s[i] == b && forall|j: int| 0 <= j < i ==> s[j] != b,
            None => forall|j: int| 0 <= j < s.len() ==> s[j] != b,
        },
    decreases s.len(),
{
    if s.len() > 0 {
        lemma_index_of_byte(s.drop_first(), b);
        if s[0] != b {
            match index_of_byte(s.drop_first(), b) {
                Some(i) => {
                    assert forall|j: int| 0 <= j < i + 1 implies s[j] != b by {
                        if j > 0 {
                            assert(s[j] == s.drop_first()[j - 1]);
                        }
                    }
                },
                None => {
                    assert forall|j: int| 0 <= j < s.len() implies s[j] != b by {
                        if j > 0 {
                            assert(s[j] == s.drop_first()[j - 1]);
                        }
                    }
                },
            }
        }
    }
}

proof fn lemma_index_of_byte_unique(s: Seq<u8>, b: u8, k: int)
    requires
        0 <= k < s.len(),
        s[k] == b,
        forall|j: int| 0 <= j < k ==> s[j] != b,
    ensures
        index_of_byte(s, b) == Some(k),
    decreases s.len(),
{
    if k > 0 {
        assert forall|j: int| 0 <= j < k - 1 implies s.drop_first()[j] != b by {
            assert(s.drop_first()[j] == s[j + 1]);
        }
        lemma_index_of_byte_unique(s.drop_first(), b, k - 1);
    }
}

proof fn lemma_index_of_byte_none(s: Seq<u8>, b: u8)
    requires
        forall|j: int| 0 <= j < s.len() ==> s[j] != b,
    ensures
        index_of_byte(s, b) is None,
    decreases s.len(),
{
    if s.len() > 0 {
        assert forall|j: int| 0 <= j < s.len() - 1 implies s.drop_first()[j] != b by {
            assert(s.drop_first()[j] == s[j + 1]);
        }
        lemma_index_of_byte_none(s.drop_first(), b);
    }
}

/// A piped line: text with its name and icon candidates, or raw bytes.
pub enum PipeLine {
    Text { name: String, icons: Vec<String> },
    Binary(Vec<u8>),
}

/// The icon named by the metadata fields of a text line: the value of the
/// last field whose key is `icon`. A field is `key\x1fvalue`.
pub open spec fn meta_icon(fields: Seq<Seq<char>>) -> Option<Seq<char>>
    decreases fields.len(),
{
    if fields.len() == 0 {
        None
    } else {
        let p = split(fields.last(), '\x1f');
        if p.len() >= 2 && p[0] == "icon"@ {
            Some(p[1])
        } else {
            meta_icon(fields.drop_last())
        }
    }
}

/// The icon candidates of a text line: the icon value cut at every comma.
pub open spec fn icon_candidates(line: Seq<char>) -> Seq<Seq<char>> {
    let parts = split(line, '\0');
    match meta_icon(parts.drop_first()) {
        Some(icon) => split(icon, ','),
        None => Seq::empty(),
    }
}

/// The name of a text line: what stands before its first NUL.
pub open spec fn line_name(line: Seq<char>) -> Seq<char> {
    split(line, '\0')[0]
}

/// Whether `l` is what the chunk `c` reads as.
pub open spec fn line_matches(l: PipeLine, c: Seq<u8>) -> bool {
    match l {
        PipeLine::Text { name, icons } => valid_utf8(c) && name@ == line_name(decode_utf8(c))
            && icons@.map_values(|s: String| s@) == icon_candidates(decode_utf8(c)),
        PipeLine::Binary(b) => !valid_utf8(c) && b@ == c,
    }
}

fn meta_icon_of(fields: &Vec<Vec<char>>, ghost_all: Ghost<Seq<Seq<char>>>) -> (r: Option<Vec<char>>)
    requires
        fields@.len() >= 1,
        ghost_all@.len() == fields@.len(),
        forall|k: int| 0 <= k < fields@.len() ==> #[trigger] fields@[k]@ == ghost_all@[k],
    ensures
        match r {
            Some(v) => meta_icon(ghost_all@.drop_first()) == Some(v@),
            None => meta_icon(ghost_all@.drop_first()) is None,
        },
{
    let ghost fs = ghost_all@.drop_first();
    let icon_key: Vec<char> = vec!['i', 'c', 'o', 'n'];
    proof {
        reveal_strlit("icon");
        assert(icon_key@ =~= "icon"@);
    }
    let mut i: usize = fields.len();
    assert(fs.take(fs.len() as int) =~= fs);
    while i > 1
        invariant
            1 <= i <= fields@.len(),
            fs == ghost_all@.drop_first(),
            ghost_all@.len() == fields@.len(),
            forall|k: int| 0 <= k < fields@.len() ==> #[trigger] fields@[k]@ == ghost_all@[k],
            icon_key@ == "icon"@,
            meta_icon(fs) == meta_icon(fs.take(i - 1)),
        decreases i,
    {
        let parts = split_chars(fields[i - 1].as_slice(), '\x1f');
        proof {
            let t = fs.take(i - 1);
            assert(t.drop_last() =~= fs.take(i - 2));
            assert(t.last() == ghost_all@[i - 1]);
        }
        if parts.len() >= 2 && seq_eq(parts[0].as_slice(), &icon_key) {
            let v = parts[1].clone();
            return Some(v);
        }
        i = i - 1;
    }
    assert(fs.take(0) =~= Seq::<Seq<char>>::empty());
    None
}

fn read_line(chunk: &[u8]) -> (r: PipeLine)
    ensures
        line_matches(r, chunk@),
{
    match utf8_str(chunk) {
        None => PipeLine::Binary(vstd::slice::slice_to_vec(chunk)),
        Some(text) => {
            proof {
                encode_utf8_decode_utf8(text@);
            }
            let tc = chars_of(text);
            let parts = split_chars(&tc, '\0');
            let ghost ps = split(text@, '\0');
            proof {
                crate::text::lemma_split_nonempty(text@, '\0');
            }
            let name = string_of(parts[0].as_slice());
            let icons: Vec<String> = match meta_icon_of(&parts, Ghost(ps)) {
                None => Vec::new(),
                Some(icon) => {
                    let pieces = split_chars(&icon, ',');
                    let mut out: Vec<String> = Vec::new();
                    let mut k: usize = 0;
                    while k < pieces.len()
                        invariant
                            k <= pieces@.len() == split(icon@, ',').len(),
                            forall|j: int| 0 <= j < pieces@.len() ==> #[trigger] pieces@[j]@ == split(icon@, ',')[j],
                            out@.len() == k,
                            forall|j: int| 0 <= j < k ==> #[trigger] out@[j]@ == split(icon@, ',')[j],
                        decreases pieces@.len() - k,
                    {
                        out.push(string_of(pieces[k].as_slice()));
                        k = k + 1;
                    }
                    assert(out@.map_values(|s: String| s@) =~= split(icon@, ','));
                    out
                },
            };
            assert(icons@.map_values(|s: String| s@) =~= icon_candidates(decode_utf8(chunk@)));
            PipeLine::Text { name, icons }
        },
    }
}

/// Cuts piped bytes into lines and reads each: a line that is valid UTF-8 is
/// text, whose name is what stands before its first NUL and whose icon
/// candidates come from its `icon` field; any other line is kept as bytes.
pub fn pipe_lines(buf: &[u8]) -> (r: Vec<PipeLine>)
    ensures
        r@.len() == chunks(buf@).len(),
        forall|i: int| 0 <= i < r@.len() ==> line_matches(#[trigger] r@[i], chunks(buf@)[i]),
{
    let mut out: Vec<PipeLine> = Vec::new();
    let mut start: usize = 0;
    let ghost all = chunks(buf@);
    assert(buf@.skip(0) =~= buf@);
    while start < buf.len()
        invariant
            start <= buf@.len(),
            all == chunks(buf@),
            out@.len() + chunks(buf@.skip(start as int)).len() == all.len(),
            forall|i: int| 0 <= i < out@.len() ==> line_matches(#[trigger] out@[i], all[i]),
            forall|i: int|
                0 <= i < chunks(buf@.skip(start as int)).len() ==> #[trigger] chunks(
                    buf@.skip(start as int),
                )[i] == all[out@.len() + i],
        decreases buf@.len() - start,
    {
        let ghost rest = buf@.skip(start as int);
        let mut end = start;
        while end < buf.len() && buf[end] != 10u8
            invariant
                start <= end <= buf@.len(),
                rest == buf@.skip(start as int),
                forall|j: int| start <= j < end ==> buf@[j] != 10u8,
            decreases buf@.len() - end,
        {
            end = end + 1;
        }
        let stop = if end < buf.len() { end + 1 } else { end };
        proof {
            if end < buf@.len() {
                lemma_index_of_byte_unique(rest, 10u8, end - start);
                assert(rest.take(end - start + 1) =~= buf@.subrange(start as int, stop as int));
                assert(rest.skip(end - start + 1) =~= buf@.skip(stop as int));
            } else {
                lemma_index_of_byte_none(rest, 10u8);
                assert(rest =~= buf@.subrange(start as int, stop as int));
                assert(buf@.skip(stop as int) =~= Seq::<u8>::empty());
            }
        }
        let line = read_line(&buf[start..stop]);
        proof {
            let cr = chunks(rest);
            if end < buf@.len() {
                assert(cr =~= seq![buf@.subrange(start as int, stop as int)] + chunks(
                    buf@.skip(stop as int),
                ));
            } else {
                assert(cr =~= seq![buf@.subrange(start as int, stop as int)]);
                assert(chunks(buf@.skip(stop as int)) =~= Seq::<Seq<u8>>::empty());
            }
            assert(cr[0] == buf@.subrange(start as int, stop as int));
            assert forall|i: int|
                0 <= i < chunks(buf@.skip(stop as int)).len() implies chunks(
                buf@.skip(stop as int),
            )[i] == cr[i + 1] by {}
        }
        let ghost old_len = out@.len();
        out.push(line);
        proof {
            assert(all[old_len as int] == chunks(rest)[0]);
        }
        start = stop;
    }
    assert(buf@.skip(start as int) =~= Seq::<u8>::empty());
    out
}

/// The element shown for a piped line: a text line shows and answers its
/// name with `icon`, a byte line carries its bytes; both carry `field` and
/// close the window when chosen.
pub fn pipe_element(line: &PipeLine, icon: Option<String>, field: Option<&str>) -> (r: PipedElements)
    ensures
        opt_view(r.field) == match field {
            Some(f) => Some(f@),
            None => None,
        },
        r.exit,
        r.description is None,
        r.icon_size is None,
        r.method is None,
        r.hidden is None,
        match line {
            PipeLine::Text { name, .. } => {
                &&& opt_view(r.title) == Some(name@)
                &&& opt_view(r.result) == Some(name@)
                &&& opt_view(r.icon) == opt_view(icon)
                &&& r.binary is None
            },
            PipeLine::Binary(b) => {
                &&& r.title is None
                &&& r.result is None
                &&& r.icon is None
                &&& r.binary matches Some(v) && v@ == b@
            },
        },
{
    let f = match field {
        Some(f) => Some(String::from_str(f)),
        None => None,
    };
    match line {
        PipeLine::Text { name, .. } => PipedElements {
            title: Some(name.clone()),
            description: None,
            icon,
            icon_size: None,
            result: Some(name.clone()),
            binary: None,
            method: None,
            field: f,
            hidden: None,
            exit: true,
        },
        PipeLine::Binary(b) => PipedElements {
            title: None,
            description: None,
            icon: None,
            icon_size: None,
            result: None,
            binary: Some(b.clone()),
            method: None,
            field: f,
            hidden: None,
            exit: true,
        },
    }
}

/// The chunks put back together.
pub open spec fn concat(parts: Seq<Seq<u8>>) -> Seq<u8>
    decreases parts.len(),
{
    if parts.len() == 0 {
        Seq::empty()
    } else {
        parts[0] + concat(parts.drop_first())
    }
}

/// Cutting piped input into lines loses and adds nothing: the lines, put
/// back together, are the input.
pub proof fn lemma_chunks_cover_input(buf: Seq<u8>)
    ensures
        concat(chunks(buf)) == buf,
    decreases buf.len(),
{
    if buf.len() > 0 {
        lemma_index_of_byte(buf, 10);
        match index_of_byte(buf, 10) {
            Some(k) => {
                let rest = buf.skip(k + 1);
                lemma_chunks_cover_input(rest);
                let c = chunks(buf);
                assert(c == seq![buf.take(k + 1)] + chunks(rest));
                assert(c.drop_first() =~= chunks(rest));
                assert(c[0] == buf.take(k + 1));
                assert(buf =~= buf.take(k + 1) + rest);
            },
            None => {
                let c = chunks(buf);
                assert(c == seq![buf]);
                assert(c.drop_first() =~= Seq::<Seq<u8>>::empty());
                assert(concat(c.drop_first()) == Seq::<u8>::empty());
                assert(buf + Seq::<u8>::empty() =~= buf);
            },
        }
    }
}

} // verus!
