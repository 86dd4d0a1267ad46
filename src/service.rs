use vstd::prelude::*;

use vstd::string::StringSliceAdditionalSpecFns;

use crate::convert::{Header, Response, Version, headers_view};

verus! {

broadcast use vstd::string::group_string_axioms;

pub const SLASH: u8 = 47;

pub const DOT: u8 = 46;

/// One component of a path.
#[derive(Debug)]
pub enum Part {
    /// The leading `/` of an absolute path.
    Root,
    /// A leading `.` of a relative path.
    Current,
    /// `..`
    Parent,
    /// Any other name.
    Normal(Vec<u8>),
}

/// A component of a path, as a value.
pub enum PartView {
    Root,
    Current,
    Parent,
    Normal(Seq<u8>),
}

pub open spec fn part_view(p: Part) -> PartView {
    match p {
        Part::Root => PartView::Root,
        Part::Current => PartView::Current,
        Part::Parent => PartView::Parent,
        Part::Normal(n) => PartView::Normal(n@),
    }
}

pub open spec fn parts_view(ps: Seq<Part>) -> Seq<PartView> {
    ps.map_values(|p: Part| part_view(p))
}

/// The pieces of `s` between the separators `/`, empty ones included.
pub open spec fn segments(s: Seq<u8>) -> Seq<Seq<u8>>
    decreases s.len(),
{
    if s.len() == 0 {
        seq![Seq::empty()]
    } else {
        let p = segments(s.drop_last());
        if s.last() == SLASH {
            p.push(Seq::empty())
        } else {
            p.update(p.len() - 1, p.last().push(s.last()))
        }
    }
}

/// The component that the segment at `index` of a path stands for, if any:
/// empty segments and `.` are dropped, but for a `.` that opens a relative
/// path.
pub open spec fn segment_part(seg: Seq<u8>, index: int, absolute: bool) -> Option<PartView> {
    if seg.len() == 0 {
        None
    } else if seg == seq![DOT] {
        if index == 0 && !absolute {
            Some(PartView::Current)
        } else {
            None
        }
    } else if seg == seq![DOT, DOT] {
        Some(PartView::Parent)
    } else {
        Some(PartView::Normal(seg))
    }
}

/// The components of the first `n` segments.
pub open spec fn segment_parts(segs: Seq<Seq<u8>>, n: int, absolute: bool) -> Seq<PartView>
    decreases n,
{
    if n <= 0 {
        Seq::empty()
    } else {
        let p = segment_parts(segs, n - 1, absolute);
        match segment_part(segs[n - 1], n - 1, absolute) {
            Some(c) => p.push(c),
            None => p,
        }
    }
}

pub open spec fn is_absolute(s: Seq<u8>) -> bool {
    s.len() > 0 && s[0] == SLASH
}

/// The components of a path, as a Unix path is read: a leading `/` is the
/// root, `..` the parent, and empty segments and `.` are dropped, but for a
/// `.` that opens a relative path.
pub open spec fn components(s: Seq<u8>) -> Seq<PartView> {
    let segs = segments(s);
    let rest = segment_parts(segs, segs.len() as int, is_absolute(s));
    if is_absolute(s) {
        seq![PartView::Root] + rest
    } else {
        rest
    }
}

/// The components of a request path that a file lookup keeps: all but the
/// root and `..`, so that the path cannot climb out of the document root.
pub open spec fn confined(ps: Seq<PartView>) -> Seq<PartView>
    decreases ps.len(),
{
    if ps.len() == 0 {
        Seq::empty()
    } else {
        let p = confined(ps.drop_last());
        match ps.last() {
            PartView::Root => p,
            PartView::Parent => p,
            c => p.push(c),
        }
    }
}

/// The bytes that a component adds to a path.
pub open spec fn part_bytes(c: PartView) -> Seq<u8> {
    match c {
        PartView::Root => seq![SLASH],
        PartView::Current => seq![DOT],
        PartView::Parent => seq![DOT, DOT],
        PartView::Normal(n) => n,
    }
}

/// A path with one more component, as a Unix path buffer grows: the root
/// starts the path over; anything else is joined with a `/` where the path
/// is not empty and does not end in one.
pub open spec fn push_part(buf: Seq<u8>, c: PartView) -> Seq<u8> {
    match c {
        PartView::Root => seq![SLASH],
        _ => if buf.len() == 0 || buf.last() == SLASH {
            buf + part_bytes(c)
        } else {
            buf.push(SLASH) + part_bytes(c)
        },
    }
}

/// The path that the components make, one after another.
pub open spec fn join(ps: Seq<PartView>) -> Seq<u8>
    decreases ps.len(),
{
    if ps.len() == 0 {
        Seq::empty()
    } else {
        push_part(join(ps.drop_last()), ps.last())
    }
}

/// The file that a request path names under the document root `root`.
pub open spec fn real_path(root: Seq<u8>, path: Seq<u8>) -> Seq<u8> {
    join(components(root) + confined(components(path)))
}

/// Splits `s` at every `/`.
fn split_segments(s: &[u8]) -> (r: Vec<Vec<u8>>)
    ensures
        r@.map_values(|v: Vec<u8>| v@) == segments(s@),
{
    let mut done: Vec<Vec<u8>> = Vec::new();
    let mut current: Vec<u8> = Vec::new();
    let mut i: usize = 0;
    while i < s.len()
        invariant
            i <= s.len(),
            done@.map_values(|v: Vec<u8>| v@).push(current@) == segments(s@.subrange(0, i as int)),
        decreases s.len() - i,
    {
        let ghost pre = s@.subrange(0, i as int);
        let ghost next = s@.subrange(0, i + 1);
        assert(next.drop_last() =~= pre);
        let b = s[i];
        if b == SLASH {
            done.push(current);
            current = Vec::new();
            assert(done@.map_values(|v: Vec<u8>| v@).push(current@) =~= segments(pre).push(Seq::empty()));
        } else {
            let ghost old_cur = current@;
            current.push(b);
            assert(done@.map_values(|v: Vec<u8>| v@).push(current@) =~= segments(pre).update(
                segments(pre).len() - 1,
                old_cur.push(b),
            ));
        }
        i = i + 1;
    }
    assert(s@.subrange(0, s@.len() as int) =~= s@);
    done.push(current);
    assert(done@.map_values(|v: Vec<u8>| v@) =~= segments(s@));
    done
}

/// The components of the path `s`.
pub fn path_components(s: &[u8]) -> (r: Vec<Part>)
    ensures
        parts_view(r@) == components(s@),
{
    let absolute = s.len() > 0 && s[0] == SLASH;
    let segs = split_segments(s);
    let ghost sv = segs@.map_values(|v: Vec<u8>| v@);
    let mut out: Vec<Part> = Vec::new();
    if absolute {
        out.push(Part::Root);
    }
    let ghost head = parts_view(out@);
    let mut i: usize = 0;
    while i < segs.len()
        invariant
            i <= segs.len(),
            sv == segments(s@),
            sv == segs@.map_values(|v: Vec<u8>| v@),
            absolute == is_absolute(s@),
            head == (if absolute { seq![PartView::Root] } else { Seq::<PartView>::empty() }),
            parts_view(out@) == head + segment_parts(sv, i as int, absolute),
        decreases segs.len() - i,
    {
        let seg = &segs[i];
        assert(seg@ == sv[i as int]);
        let n = seg.len();
        let ghost prev = parts_view(out@);
        let ghost step = segment_part(sv[i as int], i as int, absolute);
        assert(segment_parts(sv, i + 1, absolute) == match step {
            Some(c) => segment_parts(sv, i as int, absolute).push(c),
            None => segment_parts(sv, i as int, absolute),
        });
        if n == 0 {
            assert(step is None);
        } else if n == 1 && seg[0] == DOT {
            assert(seg@ =~= seq![DOT]);
            if i == 0 && !absolute {
                out.push(Part::Current);
                assert(step == Some(PartView::Current));
                assert(parts_view(out@) =~= prev.push(PartView::Current));
            } else {
                assert(step is None);
            }
        } else if n == 2 && seg[0] == DOT && seg[1] == DOT {
            assert(seg@ =~= seq![DOT, DOT]);
            out.push(Part::Parent);
            assert(step == Some(PartView::Parent));
            assert(parts_view(out@) =~= prev.push(PartView::Parent));
        } else {
            assert(seg@ != seq![DOT]);
            assert(seg@ != seq![DOT, DOT]);
            let copy = seg.clone();
            assert(copy@ =~= seg@);
            out.push(Part::Normal(copy));
            assert(step == Some(PartView::Normal(seg@)));
            assert(parts_view(out@) =~= prev.push(PartView::Normal(seg@)));
        }
        assert(parts_view(out@) =~= head + segment_parts(sv, i + 1, absolute));
        i = i + 1;
    }
    out
}

/// The components of `ps` but the root and every `..`.
fn confine(ps: &Vec<Part>) -> (r: Vec<Part>)
    ensures
        parts_view(r@) == confined(parts_view(ps@)),
{
    let mut out: Vec<Part> = Vec::new();
    let ghost all = parts_view(ps@);
    let mut i: usize = 0;
    while i < ps.len()
        invariant
            i <= ps.len(),
            all == parts_view(ps@),
            parts_view(out@) == confined(all.subrange(0, i as int)),
        decreases ps.len() - i,
    {
        let ghost pre = all.subrange(0, i as int);
        assert(all.subrange(0, i + 1).drop_last() =~= pre);
        assert(all.subrange(0, i + 1).last() == part_view(ps@[i as int]));
        match &ps[i] {
            Part::Root => {},
            Part::Parent => {},
            Part::Current => {
                out.push(Part::Current);
                assert(parts_view(out@) =~= confined(pre).push(PartView::Current));
            },
            Part::Normal(n) => {
                out.push(Part::Normal(n.clone()));
                assert(parts_view(out@) =~= confined(pre).push(all[i as int]));
            },
        }
        i = i + 1;
    }
    assert(all.subrange(0, ps@.len() as int) =~= all);
    out
}

/// Appends the bytes of `c` to `out`, as `push_part` says.
fn push_path_part(out: &mut Vec<u8>, c: &Part)
    ensures
        final(out)@ == push_part(old(out)@, part_view(*c)),
{
    match c {
        Part::Root => {
            out.clear();
            out.push(SLASH);
            assert(out@ =~= seq![SLASH]);
        },
        _ => {
            if out.len() > 0 && out[out.len() - 1] != SLASH {
                out.push(SLASH);
            }
            match c {
                Part::Current => out.push(DOT),
                Part::Parent => {
                    out.push(DOT);
                    out.push(DOT);
                },
                Part::Normal(n) => {
                    let mut bytes = n.clone();
                    out.append(&mut bytes);
                },
                Part::Root => {},
            }
            assert(final(out)@ =~= push_part(old(out)@, part_view(*c)));
        },
    }
}

/// The path that the components of `ps` make, one after another.
fn join_parts(ps: &Vec<Part>) -> (r: Vec<u8>)
    ensures
        r@ == join(parts_view(ps@)),
{
    let mut out: Vec<u8> = Vec::new();
    let mut i: usize = 0;
    while i < ps.len()
        invariant
            i <= ps.len(),
            out@ == join(parts_view(ps@).subrange(0, i as int)),
        decreases ps.len() - i,
    {
        let ghost all = parts_view(ps@);
        assert(all.subrange(0, i + 1).drop_last() =~= all.subrange(0, i as int));
        assert(all.subrange(0, i + 1).last() == part_view(ps@[i as int]));
        push_path_part(&mut out, &ps[i]);
        i = i + 1;
    }
    assert(parts_view(ps@).subrange(0, ps@.len() as int) =~= parts_view(ps@));
    out
}

/// A responder that serves the files under a document root.
pub struct StaticFileService {
    pub root: Vec<u8>,
}

impl StaticFileService {
    /// A responder for the files under `root`.
    pub fn new(root: &str) -> (r: Self)
        ensures
            r.root@ == root.spec_bytes(),
    {
        let bytes = root.as_bytes();
        let mut v: Vec<u8> = Vec::new();
        let mut i: usize = 0;
        while i < bytes.len()
            invariant
                i <= bytes.len(),
                v@ == bytes@.subrange(0, i as int),
            decreases bytes.len() - i,
        {
            v.push(bytes[i]);
            assert(v@ =~= bytes@.subrange(0, i + 1));
            i = i + 1;
        }
        assert(bytes@.subrange(0, bytes@.len() as int) =~= bytes@);
        StaticFileService { root: v }
    }

    /// The file that the request path `path` names: the root's components
    /// followed by those of `path` but its root and every `..`.
    pub fn real_path_of(&self, path: &str) -> (r: Vec<u8>)
        ensures
            r@ == real_path(self.root@, path.spec_bytes()),
            starts_with(r@, join(components(self.root@))),
    {
        proof {
            lemma_real_path_under_root(self.root@, path.spec_bytes());
        }
        let mut parts = path_components(self.root.as_slice());
        let mut kept = confine(&path_components(path.as_bytes()));
        let ghost a = parts@;
        let ghost b = kept@;
        parts.append(&mut kept);
        assert(parts_view(parts@) =~= parts_view(a) + parts_view(b));
        join_parts(&parts)
    }
}

/// The path that a request names never leads out of the document root: the
/// components that it contributes to the file's path hold no root and no
/// `..`, and they follow the root's own components unchanged.
pub proof fn lemma_confined_path(root: Seq<u8>, path: Seq<u8>)
    ensures
        forall|k: int|
            0 <= k < confined(components(path)).len() ==> !(#[trigger] confined(components(path))[k] is Root)
                && !(confined(components(path))[k] is Parent),
        (components(root) + confined(components(path))).subrange(0, components(root).len() as int)
            == components(root),
{
    lemma_confined_has_no_escape(components(path));
    assert((components(root) + confined(components(path))).subrange(0, components(root).len() as int)
        =~= components(root));
}

/// `p` is the start of `s`.
pub open spec fn starts_with(s: Seq<u8>, p: Seq<u8>) -> bool {
    p.len() <= s.len() && s.subrange(0, p.len() as int) == p
}

/// Appending components other than the root to a path only extends it.
proof fn lemma_join_extends(a: Seq<PartView>, b: Seq<PartView>)
    requires
        forall|k: int| 0 <= k < b.len() ==> !(#[trigger] b[k] is Root),
    ensures
        starts_with(join(a + b), join(a)),
    decreases b.len(),
{
    if b.len() == 0 {
        assert(a + b =~= a);
        assert(join(a).subrange(0, join(a).len() as int) =~= join(a));
    } else {
        let rest = b.drop_last();
        assert forall|k: int| 0 <= k < rest.len() implies !(#[trigger] rest[k] is Root) by {
            assert(rest[k] == b[k]);
        }
        lemma_join_extends(a, rest);
        assert((a + b).drop_last() =~= a + rest);
        assert((a + b).last() == b.last());
        assert(!(b[b.len() - 1] is Root));
        let buf = join(a + rest);
        let out = join(a + b);
        assert(out == push_part(buf, b.last()));
        assert(starts_with(out, buf)) by {
            assert(out.subrange(0, buf.len() as int) =~= buf);
        }
        assert(out.subrange(0, join(a).len() as int) =~= buf.subrange(0, join(a).len() as int));
    }
}

/// No request path leads out of the document root: the file's path starts
/// with the root's own path, as its components join, and what follows holds
/// none of the request path's root or `..` components.
pub proof fn lemma_real_path_under_root(root: Seq<u8>, path: Seq<u8>)
    ensures
        starts_with(real_path(root, path), join(components(root))),
{
    lemma_confined_has_no_escape(components(path));
    lemma_join_extends(components(root), confined(components(path)));
}

proof fn lemma_confined_has_no_escape(ps: Seq<PartView>)
    ensures
        forall|k: int|
            0 <= k < confined(ps).len() ==> !(#[trigger] confined(ps)[k] is Root) && !(confined(ps)[k] is Parent),
    decreases ps.len(),
{
    if ps.len() > 0 {
        lemma_confined_has_no_escape(ps.drop_last());
    }
}

/// Status of a response with the file's content.
pub const OK: u16 = 200;

/// Status of a response for a path that names no file.
pub const NOT_FOUND: u16 = 404;

/// The response of the file responder: where the file was found (`file` is
/// `Some` with its content), status 200 with a `content-type` header of
/// `content_type` and the content as body; otherwise status 404, no header
/// and an empty body.
pub fn file_response(file: Option<Vec<u8>>, content_type: &str) -> (r: Response<Vec<u8>>)
    ensures
        r.version == Version::Http11,
        match file {
            Some(content) => {
                &&& r.status == OK
                &&& headers_view(r.headers@) == seq![("content-type"@, content_type.spec_bytes())]
                &&& r.body@ == content@
            },
            None => {
                &&& r.status == NOT_FOUND
                &&& r.headers@.len() == 0
                &&& r.body@.len() == 0
            },
        },
{
    match file {
        Some(content) => {
            let bytes = content_type.as_bytes();
            let mut value: Vec<u8> = Vec::new();
            let mut i: usize = 0;
            while i < bytes.len()
                invariant
                    i <= bytes.len(),
                    value@ == bytes@.subrange(0, i as int),
                decreases bytes.len() - i,
            {
                value.push(bytes[i]);
                assert(value@ =~= bytes@.subrange(0, i + 1));
                i = i + 1;
            }
            assert(bytes@.subrange(0, bytes@.len() as int) =~= bytes@);
            let mut headers: Vec<Header> = Vec::new();
            headers.push(Header { name: String::from_str("content-type"), value });
            assert(headers_view(headers@) =~= seq![("content-type"@, content_type.spec_bytes())]);
            Response { status: OK, version: Version::Http11, headers, body: content }
        },
        None => Response { status: NOT_FOUND, version: Version::Http11, headers: Vec::new(), body: Vec::new() },
    }
}

/// The media type that a file's path announces.
pub uninterp spec fn guessed_mime(path: Seq<u8>) -> Seq<char>;

/// Relies on `mime_guess::from_path` and `MimeGuess::first_or_octet_stream`:
/// the media type that the extension of the path maps to, or
/// `application/octet-stream`, which depends on the path alone.
#[verifier::external_body]
fn content_type_of(path: &Vec<u8>) -> (r: String)
    ensures
        r@ == guessed_mime(path@),
{
    mime_guess::from_path(&*String::from_utf8_lossy(path)).first_or_octet_stream().to_string()
}

impl StaticFileService {
    /// The response for the file at `real_path`, whose content is `file`
    /// where it exists and is a regular file: status 200 with the media type
    /// that the path announces, or else status 404.
    pub fn response_for(&self, real_path: &Vec<u8>, file: Option<Vec<u8>>) -> (r: Response<Vec<u8>>)
        ensures
            r.version == Version::Http11,
            match file {
                Some(content) => {
                    &&& r.status == OK
                    &&& headers_view(r.headers@) == seq![("content-type"@, vstd::utf8::encode_utf8(guessed_mime(real_path@)))]
                    &&& r.body@ == content@
                },
                None => {
                    &&& r.status == NOT_FOUND
                    &&& r.headers@.len() == 0
                    &&& r.body@.len() == 0
                },
            },
    {
        match file {
            Some(content) => {
                let content_type = content_type_of(real_path);
                file_response(Some(content), content_type.as_str())
            },
            None => file_response(None, ""),
        }
    }
}

} // verus!
