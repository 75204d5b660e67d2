//! The URL canonicalizer: derives a filesystem-safe, human-legible
//! identifier (`host/org/repo`) from a remote repository URL.
//!
//! `canonical_id` is the mathematical definition; `extract_repo_name` is
//! the executable function, proved to return exactly what `canonical_id`
//! says for every input string.

use vstd::prelude::*;

verus! {

/// Why a URL was rejected; each condition of the algorithm is reported
/// distinctly so HTTP-facing callers can surface them as client errors.
#[derive(Debug, Clone, Copy, PartialEq, Eq, Structural)]
pub enum UrlError {
    /// An HTTP(S) URL with fewer than three path-separated segments.
    InsufficientSegments,
    /// An SSH-style URL without exactly one `@` or exactly one `:`.
    MalformedSshSplit,
    /// An SSH path with more than two `/`-separated segments.
    InvalidSshPath,
    /// Neither a recognized scheme nor an `@`.
    UnsupportedShape,
    /// The composed identifier is empty.
    EmptyResult,
    /// A segment of the identifier is `.` or `..`.
    UnsafeSegment,
}

pub open spec fn http_prefix() -> Seq<char> {
    seq!['h', 't', 't', 'p', ':', '/', '/']
}

pub open spec fn https_prefix() -> Seq<char> {
    seq!['h', 't', 't', 'p', 's', ':', '/', '/']
}

pub open spec fn dot_git() -> Seq<char> {
    seq!['.', 'g', 'i', 't']
}

/// The string with every trailing `/` removed.
pub open spec fn strip_trailing_slashes(s: Seq<char>) -> Seq<char>
    decreases s.len(),
{
    if s.len() > 0 && s.last() == '/' {
        strip_trailing_slashes(s.drop_last())
    } else {
        s
    }
}

/// The string with every trailing `.git` removed.
pub open spec fn strip_git_suffix(s: Seq<char>) -> Seq<char>
    decreases s.len(),
{
    if s.len() >= 4 && s.skip(s.len() - 4) == dot_git() {
        strip_git_suffix(s.take(s.len() - 4))
    } else {
        s
    }
}

/// Splitting on a character, with Rust's `str::split` semantics: the
/// result always has one part more than the string has separators, and
/// empty parts are kept.
pub open spec fn split_on(s: Seq<char>, c: char) -> Seq<Seq<char>>
    decreases s.len(),
{
    if s.len() == 0 {
        seq![Seq::<char>::empty()]
    } else if s[0] == c {
        seq![Seq::<char>::empty()] + split_on(s.skip(1), c)
    } else {
        let rest = split_on(s.skip(1), c);
        seq![seq![s[0]] + rest[0]] + rest.skip(1)
    }
}

/// `:` and `@` are unsafe as path components on the target filesystem and
/// are replaced by `_`.
pub open spec fn sanitize_char(c: char) -> char {
    if c == ':' || c == '@' {
        '_'
    } else {
        c
    }
}

pub open spec fn sanitize(s: Seq<char>) -> Seq<char> {
    s.map_values(|c: char| sanitize_char(c))
}

/// A path segment that would escape the repository root.
pub open spec fn is_dot_segment(s: Seq<char>) -> bool {
    s == seq!['.'] || s == seq!['.', '.']
}

pub open spec fn has_url_scheme(s: Seq<char>) -> bool {
    (s.len() >= 7 && s.take(7) == http_prefix()) || (s.len() >= 8 && s.take(8) == https_prefix())
}

pub open spec fn scheme_rest(s: Seq<char>) -> Seq<char> {
    if s.len() >= 7 && s.take(7) == http_prefix() {
        s.skip(7)
    } else {
        s.skip(8)
    }
}

/// Joins the identifier's segments with `/`.
pub open spec fn join_slash(parts: Seq<Seq<char>>) -> Seq<char>
    decreases parts.len(),
{
    if parts.len() == 0 {
        Seq::<char>::empty()
    } else if parts.len() == 1 {
        parts[0]
    } else {
        parts[0] + seq!['/'] + join_slash(parts.skip(1))
    }
}

/// The last step of the algorithm, shared by the HTTP and SSH shapes:
/// join the parts, replace the filesystem-unsafe characters, and refuse
/// an identifier that is empty or holds a `.`/`..` path segment.  The
/// check runs on the `/`-split of the finished identifier — a part that
/// itself holds a `/` (an SSH host part can) cannot smuggle a traversal
/// segment in.
pub open spec fn compose_id(parts: Seq<Seq<char>>) -> Result<Seq<char>, UrlError> {
    let id = sanitize(join_slash(parts));
    if exists|i: int| 0 <= i < split_on(id, '/').len() && is_dot_segment(split_on(id, '/')[i]) {
        Err(UrlError::UnsafeSegment)
    } else if id.len() == 0 {
        Err(UrlError::EmptyResult)
    } else {
        Ok(id)
    }
}

/// Every accepted identifier is traversal-free: no `/`-separated segment
/// of it is `.` or `..`, so it never escapes the repository root it is
/// joined under.
pub proof fn lemma_no_traversal(url: Seq<char>)
    requires
        canonical_id(url) is Ok,
    ensures
        forall|i: int|
            0 <= i < split_on(canonical_id(url)->Ok_0, '/').len() ==> !is_dot_segment(
                #[trigger] split_on(canonical_id(url)->Ok_0, '/')[i],
            ),
{
}

/// The canonical identifier of a remote repository URL, or the reason the
/// URL is rejected.
///
/// After trailing `/` are stripped: an HTTP(S) URL must have at least
/// three `/`-separated segments after the scheme, and the first three
/// become `host/org/repo` (with trailing `.git` stripped from the repo
/// segment); an SSH-style URL `user@host:path` must have exactly one `@`
/// and one `:`, and its path one or two segments, giving `host/repo` or
/// `host/org/repo`.  Anything else is rejected.
pub open spec fn canonical_id(url: Seq<char>) -> Result<Seq<char>, UrlError> {
    let u = strip_trailing_slashes(url);
    if has_url_scheme(u) {
        let parts = split_on(scheme_rest(u), '/');
        if parts.len() < 3 {
            Err(UrlError::InsufficientSegments)
        } else {
            compose_id(seq![parts[0], parts[1], strip_git_suffix(parts[2])])
        }
    } else if u.contains('@') {
        let at_parts = split_on(u, '@');
        if at_parts.len() != 2 {
            Err(UrlError::MalformedSshSplit)
        } else {
            let colon_parts = split_on(at_parts[1], ':');
            if colon_parts.len() != 2 {
                Err(UrlError::MalformedSshSplit)
            } else {
                let path_parts = split_on(colon_parts[1], '/');
                if path_parts.len() == 2 {
                    compose_id(
                        seq![colon_parts[0], path_parts[0], strip_git_suffix(path_parts[1])],
                    )
                } else if path_parts.len() == 1 {
                    compose_id(seq![colon_parts[0], strip_git_suffix(path_parts[0])])
                } else {
                    Err(UrlError::InvalidSshPath)
                }
            }
        }
    } else {
        Err(UrlError::UnsupportedShape)
    }
}

/// The views of a vector of owned strings.
pub open spec fn views_of(v: Seq<String>) -> Seq<Seq<char>> {
    v.map_values(|s: String| s@)
}

/// `split_on` of a string whose first separator stands at `i`.
proof fn lemma_split_at_first(s: Seq<char>, c: char, i: int)
    requires
        0 <= i < s.len(),
        s[i] == c,
        forall|j: int| 0 <= j < i ==> s[j] != c,
    ensures
        split_on(s, c) == seq![s.take(i)] + split_on(s.skip(i + 1), c),
    decreases i,
{
    if i == 0 {
        assert(s.take(0) =~= Seq::<char>::empty());
        assert(seq![s.take(0)] + split_on(s.skip(1), c) =~= seq![Seq::<char>::empty()]
            + split_on(s.skip(1), c));
    } else {
        let t = s.skip(1);
        assert(t[i - 1] == c);
        assert(forall|j: int| 0 <= j < i - 1 ==> t[j] == s[j + 1] && t[j] != c);
        lemma_split_at_first(t, c, i - 1);
        let rest = split_on(t, c);
        assert(rest == seq![t.take(i - 1)] + split_on(t.skip(i), c));
        assert(rest[0] == t.take(i - 1));
        assert(rest.skip(1) =~= split_on(t.skip(i), c));
        assert(t.skip(i) =~= s.skip(i + 1));
        assert(seq![s[0]] + rest[0] =~= s.take(i));
        assert(split_on(s, c) =~= seq![s.take(i)] + split_on(s.skip(i + 1), c));
    }
}

/// `split_on` of a string without the separator.
proof fn lemma_split_no_sep(s: Seq<char>, c: char)
    requires
        forall|j: int| 0 <= j < s.len() ==> s[j] != c,
    ensures
        split_on(s, c) == seq![s],
    decreases s.len(),
{
    if s.len() == 0 {
        assert(s =~= Seq::<char>::empty());
        assert(split_on(s, c) =~= seq![s]);
    } else {
        let t = s.skip(1);
        assert(forall|j: int| 0 <= j < t.len() ==> t[j] == s[j + 1] && t[j] != c);
        lemma_split_no_sep(t, c);
        let rest = split_on(t, c);
        assert(rest[0] == t);
        assert(seq![s[0]] + t =~= s);
        assert(rest.skip(1) =~= Seq::<Seq<char>>::empty());
        assert(split_on(s, c) =~= seq![s]);
    }
}

/// Splits a string on a character, keeping empty parts, as `str::split`
/// does.
fn split_char(s: &str, c: char) -> (parts: Vec<String>)
    ensures
        views_of(parts@) == split_on(s@, c),
{
    let n: usize = s.unicode_len();
    let mut parts: Vec<String> = Vec::new();
    let mut start: usize = 0;
    let mut i: usize = 0;
    proof {
        assert(views_of(parts@) =~= Seq::<Seq<char>>::empty());
        assert(s@.skip(0) =~= s@);
        assert(views_of(parts@) + split_on(s@.skip(0), c) =~= split_on(s@, c));
    }
    while i < n
        invariant
            0 <= start <= i <= n == s@.len(),
            split_on(s@, c) == views_of(parts@) + split_on(s@.skip(start as int), c),
            forall|j: int| start <= j < i ==> s@[j] != c,
        decreases n - i,
    {
        if s.get_char(i) == c {
            let part = s.substring_char(start, i);
            let ghost old_parts = parts@;
            parts.push(part.to_owned());
            proof {
                let tail = s@.skip(start as int);
                assert(tail[i - start] == s@[i as int]);
                assert(forall|j: int| 0 <= j < i - start ==> tail[j] == s@[j + start] && tail[j]
                    != c);
                lemma_split_at_first(tail, c, i - start);
                assert(tail.take(i - start) =~= s@.subrange(start as int, i as int));
                assert(tail.skip(i - start + 1) =~= s@.skip(i + 1));
                assert(views_of(parts@) =~= views_of(old_parts) + seq![part@]);
                assert(views_of(parts@) + split_on(s@.skip(i + 1), c) =~= views_of(old_parts)
                    + split_on(s@.skip(start as int), c));
            }
            start = i + 1;
        }
        i = i + 1;
    }
    let last = s.substring_char(start, n);
    let ghost old_parts = parts@;
    parts.push(last.to_owned());
    proof {
        let tail = s@.skip(start as int);
        assert(forall|j: int| 0 <= j < tail.len() ==> tail[j] == s@[j + start] && tail[j] != c);
        lemma_split_no_sep(tail, c);
        assert(tail =~= s@.subrange(start as int, n as int));
        assert(views_of(parts@) =~= views_of(old_parts) + seq![last@]);
        assert(views_of(parts@) =~= split_on(s@, c));
    }
    parts
}

fn strip_trailing_slashes_exec(s: &str) -> (r: &str)
    ensures
        r@ == strip_trailing_slashes(s@),
{
    let n: usize = s.unicode_len();
    let mut end: usize = n;
    proof {
        assert(s@.take(n as int) =~= s@);
    }
    while end > 0 && s.get_char(end - 1) == '/'
        invariant
            0 <= end <= n == s@.len(),
            strip_trailing_slashes(s@.take(end as int)) == strip_trailing_slashes(s@),
        decreases end,
    {
        proof {
            let t = s@.take(end as int);
            assert(t.last() == s@[end - 1]);
            assert(t.drop_last() =~= s@.take(end - 1));
        }
        end = end - 1;
    }
    let r = s.substring_char(0, end);
    proof {
        let t = s@.take(end as int);
        if end > 0 {
            assert(t.last() == s@[end - 1]);
        }
        assert(r@ =~= t);
    }
    r
}

/// Recognizes the `http://` / `https://` scheme prefix, returning its
/// length in characters.
fn scheme_prefix_len(s: &str) -> (r: Option<usize>)
    ensures
        match r {
            Some(n) => has_url_scheme(s@) && scheme_rest(s@) == s@.skip(n as int) && n <= s@.len(),
            None => !has_url_scheme(s@),
        },
{
    let n: usize = s.unicode_len();
    if n < 7 {
        return None;
    }
    proof {
        assert forall|j: int| 0 <= j < 7 implies s@.take(7)[j] == s@[j] by {}
    }
    if !(s.get_char(0) == 'h' && s.get_char(1) == 't' && s.get_char(2) == 't' && s.get_char(3)
        == 'p') {
        proof {
            if n >= 8 {
                assert forall|j: int| 0 <= j < 8 implies s@.take(8)[j] == s@[j] by {}
            }
        }
        return None;
    }
    let c4 = s.get_char(4);
    if c4 == ':' {
        if s.get_char(5) == '/' && s.get_char(6) == '/' {
            proof {
                assert(s@.take(7) =~= http_prefix());
            }
            return Some(7);
        }
        proof {
            if n >= 8 {
                assert forall|j: int| 0 <= j < 8 implies s@.take(8)[j] == s@[j] by {}
            }
        }
        return None;
    }
    if c4 == 's' && n >= 8 {
        proof {
            assert forall|j: int| 0 <= j < 8 implies s@.take(8)[j] == s@[j] by {}
        }
        if s.get_char(5) == ':' && s.get_char(6) == '/' && s.get_char(7) == '/' {
            proof {
                assert(s@.take(8) =~= https_prefix());
            }
            return Some(8);
        }
        return None;
    }
    proof {
        if n >= 8 {
            assert forall|j: int| 0 <= j < 8 implies s@.take(8)[j] == s@[j] by {}
        }
    }
    None
}

/// Removes every trailing `.git` from a segment.
fn strip_git_exec(s: &str) -> (r: String)
    ensures
        r@ == strip_git_suffix(s@),
{
    let n: usize = s.unicode_len();
    let mut end: usize = n;
    proof {
        assert(s@.take(n as int) =~= s@);
    }
    while end >= 4 && s.get_char(end - 4) == '.' && s.get_char(end - 3) == 'g' && s.get_char(
        end - 2,
    ) == 'i' && s.get_char(end - 1) == 't'
        invariant
            0 <= end <= n == s@.len(),
            strip_git_suffix(s@.take(end as int)) == strip_git_suffix(s@),
        decreases end,
    {
        proof {
            let t = s@.take(end as int);
            assert(t.skip(end - 4) =~= dot_git());
            assert(t.take(end - 4) =~= s@.take(end - 4));
        }
        end = end - 4;
    }
    proof {
        let t = s@.take(end as int);
        if end >= 4 && t.skip(end - 4) == dot_git() {
            assert(t.skip(end - 4)[0] == s@[end - 4]);
            assert(t.skip(end - 4)[1] == s@[end - 3]);
            assert(t.skip(end - 4)[2] == s@[end - 2]);
            assert(t.skip(end - 4)[3] == s@[end - 1]);
        }
        assert(strip_git_suffix(t) == t);
    }
    let r = s.substring_char(0, end);
    proof {
        assert(r@ =~= s@.take(end as int));
    }
    r.to_owned()
}

/// Appends `part` to `out` with `:` and `@` replaced by `_`.
fn append_sanitized(out: &mut String, part: &str)
    ensures
        final(out)@ == old(out)@ + sanitize(part@),
{
    let n: usize = part.unicode_len();
    let mut i: usize = 0;
    proof {
        assert(out@ + sanitize(part@.take(0)) =~= out@);
    }
    while i < n
        invariant
            0 <= i <= n == part@.len(),
            out@ == old(out)@ + sanitize(part@.take(i as int)),
        decreases n - i,
    {
        let ghost prev = out@;
        let c = part.get_char(i);
        if c == ':' || c == '@' {
            out.append("_");
            proof {
                reveal_strlit("_");
            }
        } else {
            let piece = part.substring_char(i, i + 1);
            proof {
                assert(piece@ =~= seq![part@[i as int]]);
            }
            out.append(piece);
        }
        proof {
            assert(sanitize(part@.take(i + 1)) =~= sanitize(part@.take(i as int)) + seq![
                sanitize_char(part@[i as int]),
            ]);
            assert(out@ =~= old(out)@ + sanitize(part@.take(i + 1)));
        }
        i = i + 1;
    }
    proof {
        assert(part@.take(n as int) =~= part@);
    }
}

/// Is the segment `.` or `..`?
fn is_dot_segment_exec(s: &str) -> (r: bool)
    ensures
        r == is_dot_segment(s@),
{
    let n: usize = s.unicode_len();
    if n == 1 && s.get_char(0) == '.' {
        proof {
            assert(s@ =~= seq!['.']);
        }
        true
    } else if n == 2 && s.get_char(0) == '.' && s.get_char(1) == '.' {
        proof {
            assert(s@ =~= seq!['.', '.']);
        }
        true
    } else {
        proof {
            if s@ == seq!['.'] {
                assert(s@.len() == 1 && s@[0] == '.');
            }
            if s@ == seq!['.', '.'] {
                assert(s@.len() == 2 && s@[0] == '.' && s@[1] == '.');
            }
        }
        false
    }
}

fn contains_char(s: &str, c: char) -> (b: bool)
    ensures
        b == s@.contains(c),
{
    let n: usize = s.unicode_len();
    let mut i: usize = 0;
    while i < n
        invariant
            0 <= i <= n == s@.len(),
            forall|j: int| 0 <= j < i ==> s@[j] != c,
        decreases n - i,
    {
        if s.get_char(i) == c {
            return true;
        }
        i = i + 1;
    }
    false
}

/// Appending one more segment to a joined identifier.
proof fn lemma_join_snoc(parts: Seq<Seq<char>>, x: Seq<char>)
    requires
        parts.len() >= 1,
    ensures
        join_slash(parts.push(x)) == join_slash(parts) + seq!['/'] + x,
    decreases parts.len(),
{
    if parts.len() == 1 {
        let p = parts.push(x);
        assert(p.skip(1) =~= seq![x]);
        assert(join_slash(p.skip(1)) == x);
        assert(join_slash(p) =~= parts[0] + seq!['/'] + x);
        assert(join_slash(parts) == parts[0]);
    } else {
        let p = parts.push(x);
        assert(p.skip(1) =~= parts.skip(1).push(x));
        lemma_join_snoc(parts.skip(1), x);
        assert(join_slash(p) == p[0] + seq!['/'] + join_slash(parts.skip(1).push(x)));
        assert(join_slash(p) =~= (parts[0] + seq!['/'] + join_slash(parts.skip(1))) + seq!['/']
            + x);
    }
}

proof fn lemma_sanitize_concat(a: Seq<char>, b: Seq<char>)
    ensures
        sanitize(a + b) == sanitize(a) + sanitize(b),
{
    assert(sanitize(a + b) =~= sanitize(a) + sanitize(b));
}

/// Joins the given segments with `/`, sanitizes the result, and refuses
/// `.`/`..` segments and an empty identifier, as `compose_id` says.
fn compose_exec(segs: &Vec<String>) -> (r: Result<String, UrlError>)
    requires
        segs@.len() >= 1,
    ensures
        match r {
            Ok(name) => compose_id(views_of(segs@)) == Ok::<Seq<char>, UrlError>(name@),
            Err(e) => compose_id(views_of(segs@)) == Err::<Seq<char>, UrlError>(e),
        },
{
    let ghost views = views_of(segs@);
    let n: usize = segs.len();
    let mut out = String::new();
    append_sanitized(&mut out, segs[0].as_str());
    proof {
        assert(views.take(1) =~= seq![views[0]]);
        assert(join_slash(views.take(1)) == views[0]);
    }
    let mut k: usize = 1;
    while k < n
        invariant
            1 <= k <= n == segs@.len(),
            views == views_of(segs@),
            out@ == sanitize(join_slash(views.take(k as int))),
        decreases n - k,
    {
        out.append("/");
        append_sanitized(&mut out, segs[k].as_str());
        proof {
            reveal_strlit("/");
            assert("/"@ =~= seq!['/']);
            assert(views.take(k + 1) =~= views.take(k as int).push(views[k as int]));
            lemma_join_snoc(views.take(k as int), views[k as int]);
            lemma_sanitize_concat(join_slash(views.take(k as int)), seq!['/']);
            lemma_sanitize_concat(join_slash(views.take(k as int)) + seq!['/'], views[k as int]);
            assert(sanitize(seq!['/']) =~= seq!['/']);
            assert(out@ =~= sanitize(join_slash(views.take(k + 1))));
        }
        k = k + 1;
    }
    proof {
        assert(views.take(n as int) =~= views);
    }
    let ghost id = sanitize(join_slash(views));
    let pieces = split_char(out.as_str(), '/');
    let m: usize = pieces.len();
    proof {
        assert(views_of(pieces@).len() == pieces@.len());
    }
    let mut i: usize = 0;
    while i < m
        invariant
            0 <= i <= m == pieces@.len(),
            views == views_of(segs@),
            id == sanitize(join_slash(views)),
            out@ == id,
            views_of(pieces@) == split_on(id, '/'),
            forall|j: int| 0 <= j < i ==> !is_dot_segment(split_on(id, '/')[j]),
        decreases m - i,
    {
        if is_dot_segment_exec(pieces[i].as_str()) {
            proof {
                assert(views_of(pieces@)[i as int] == pieces@[i as int]@);
                assert(exists|j: int|
                    0 <= j < split_on(id, '/').len() && is_dot_segment(split_on(id, '/')[j]));
            }
            return Err(UrlError::UnsafeSegment);
        }
        proof {
            assert(views_of(pieces@)[i as int] == pieces@[i as int]@);
        }
        i = i + 1;
    }
    if out.as_str().is_empty() {
        return Err(UrlError::EmptyResult);
    }
    Ok(out)
}

/// Derives the canonical local identifier for a remote repository URL:
/// `host/org/repo` for HTTP(S) and SSH-style URLs, with trailing `/`
/// and `.git` stripped and filesystem-unsafe characters replaced.
///
/// Returns exactly what the specification `canonical_id` says on every
/// input, including which validation error a rejected URL earns.
pub fn extract_repo_name(url: &str) -> (r: Result<String, UrlError>)
    ensures
        match r {
            Ok(name) => canonical_id(url@) == Ok::<Seq<char>, UrlError>(name@),
            Err(e) => canonical_id(url@) == Err::<Seq<char>, UrlError>(e),
        },
{
    let u = strip_trailing_slashes_exec(url);
    match scheme_prefix_len(u) {
        Some(k) => {
            let rest = u.substring_char(k, u.unicode_len());
            proof {
                assert(rest@ =~= u@.skip(k as int));
            }
            let parts = split_char(rest, '/');
            proof {
                assert(views_of(parts@).len() == parts@.len());
            }
            if parts.len() < 3 {
                Err(UrlError::InsufficientSegments)
            } else {
                let mut segs: Vec<String> = Vec::new();
                segs.push(parts[0].clone());
                segs.push(parts[1].clone());
                segs.push(strip_git_exec(parts[2].as_str()));
                proof {
                    let sp = split_on(scheme_rest(u@), '/');
                    assert(views_of(segs@) =~= seq![sp[0], sp[1], strip_git_suffix(sp[2])]);
                }
                compose_exec(&segs)
            }
        },
        None => {
            if contains_char(u, '@') {
                let at_parts = split_char(u, '@');
                proof {
                    assert(views_of(at_parts@).len() == at_parts@.len());
                }
                if at_parts.len() != 2 {
                    Err(UrlError::MalformedSshSplit)
                } else {
                    let colon_parts = split_char(at_parts[1].as_str(), ':');
                    proof {
                        assert(views_of(colon_parts@).len() == colon_parts@.len());
                        assert(at_parts@[1]@ == split_on(u@, '@')[1]);
                    }
                    if colon_parts.len() != 2 {
                        Err(UrlError::MalformedSshSplit)
                    } else {
                        let path_parts = split_char(colon_parts[1].as_str(), '/');
                        proof {
                            assert(views_of(path_parts@).len() == path_parts@.len());
                            assert(colon_parts@[1]@ == split_on(split_on(u@, '@')[1], ':')[1]);
                            assert(colon_parts@[0]@ == split_on(split_on(u@, '@')[1], ':')[0]);
                        }
                        if path_parts.len() == 2 {
                            let mut segs: Vec<String> = Vec::new();
                            segs.push(colon_parts[0].clone());
                            segs.push(path_parts[0].clone());
                            segs.push(strip_git_exec(path_parts[1].as_str()));
                            proof {
                                let pp = split_on(
                                    split_on(split_on(u@, '@')[1], ':')[1],
                                    '/',
                                );
                                assert(views_of(segs@) =~= seq![
                                    split_on(split_on(u@, '@')[1], ':')[0],
                                    pp[0],
                                    strip_git_suffix(pp[1]),
                                ]);
                            }
                            compose_exec(&segs)
                        } else if path_parts.len() == 1 {
                            let mut segs: Vec<String> = Vec::new();
                            segs.push(colon_parts[0].clone());
                            segs.push(strip_git_exec(path_parts[0].as_str()));
                            proof {
                                let pp = split_on(
                                    split_on(split_on(u@, '@')[1], ':')[1],
                                    '/',
                                );
                                assert(views_of(segs@) =~= seq![
                                    split_on(split_on(u@, '@')[1], ':')[0],
                                    strip_git_suffix(pp[0]),
                                ]);
                            }
                            compose_exec(&segs)
                        } else {
                            Err(UrlError::InvalidSshPath)
                        }
                    }
                }
            } else {
                Err(UrlError::UnsupportedShape)
            }
        },
    }
}

/// A well-formed HTTP(S) repository URL, built from its pieces.
pub open spec fn https_url(
    secure: bool,
    host: Seq<char>,
    org: Seq<char>,
    repo: Seq<char>,
    with_git: bool,
) -> Seq<char> {
    (if secure {
        https_prefix()
    } else {
        http_prefix()
    }) + host + seq!['/'] + org + seq!['/'] + repo + (if with_git {
        dot_git()
    } else {
        Seq::<char>::empty()
    })
}

/// A well-formed SSH-style repository URL `user@host:org/repo[.git]`.
pub open spec fn ssh_url(
    user: Seq<char>,
    host: Seq<char>,
    org: Seq<char>,
    repo: Seq<char>,
    with_git: bool,
) -> Seq<char> {
    user + seq!['@'] + host + seq![':'] + org + seq!['/'] + repo + (if with_git {
        dot_git()
    } else {
        Seq::<char>::empty()
    })
}

/// `split_on` pulled apart at a separator that the left part lacks.
proof fn lemma_split_sep(a: Seq<char>, b: Seq<char>, c: char)
    requires
        !a.contains(c),
    ensures
        split_on(a + seq![c] + b, c) == seq![a] + split_on(b, c),
{
    let s = a + seq![c] + b;
    assert(s[a.len() as int] == c);
    assert(forall|j: int| 0 <= j < a.len() ==> s[j] == a[j] && s[j] != c);
    lemma_split_at_first(s, c, a.len() as int);
    assert(s.take(a.len() as int) =~= a);
    assert(s.skip(a.len() as int + 1) =~= b);
}

/// Sanitizing a joined identifier whose segments hold no `:` or `@`
/// changes nothing.
proof fn lemma_sanitize_clean(parts: Seq<Seq<char>>)
    requires
        forall|i: int| 0 <= i < parts.len() ==> !(#[trigger] parts[i]).contains(':')
            && !parts[i].contains('@'),
    ensures
        sanitize(join_slash(parts)) == join_slash(parts),
    decreases parts.len(),
{
    if parts.len() == 0 {
        assert(sanitize(join_slash(parts)) =~= join_slash(parts));
    } else if parts.len() == 1 {
        let p = parts[0];
        assert(forall|j: int| 0 <= j < p.len() ==> p[j] != ':' && p[j] != '@');
        assert(sanitize(p) =~= p);
    } else {
        lemma_sanitize_clean(parts.skip(1));
        lemma_sanitize_concat(parts[0], seq!['/'] + join_slash(parts.skip(1)));
        lemma_sanitize_concat(seq!['/'], join_slash(parts.skip(1)));
        let p = parts[0];
        assert(forall|j: int| 0 <= j < p.len() ==> p[j] != ':' && p[j] != '@');
        assert(sanitize(p) =~= p);
        assert(sanitize(seq!['/']) =~= seq!['/']);
        assert(join_slash(parts) =~= parts[0] + (seq!['/'] + join_slash(parts.skip(1))));
        assert(sanitize(join_slash(parts)) =~= join_slash(parts));
    }
}

/// Splitting a joined identifier on `/` gives the parts back when none
/// of them holds a `/` of its own.
proof fn lemma_split_join(parts: Seq<Seq<char>>)
    requires
        parts.len() >= 1,
        forall|i: int| 0 <= i < parts.len() ==> !(#[trigger] parts[i]).contains('/'),
    ensures
        split_on(join_slash(parts), '/') == parts,
    decreases parts.len(),
{
    if parts.len() == 1 {
        assert(forall|j: int| 0 <= j < parts[0].len() ==> parts[0][j] != '/');
        lemma_split_no_sep(parts[0], '/');
        assert(split_on(join_slash(parts), '/') =~= parts);
    } else {
        lemma_split_sep(parts[0], join_slash(parts.skip(1)), '/');
        assert(forall|i: int|
            0 <= i < parts.skip(1).len() ==> !(#[trigger] parts.skip(1)[i]).contains('/'));
        lemma_split_join(parts.skip(1));
        assert(split_on(join_slash(parts), '/') =~= seq![parts[0]] + parts.skip(1));
        assert(seq![parts[0]] + parts.skip(1) =~= parts);
    }
}

/// Composing clean segments — free of `/`, `:` and `@`, none a dot
/// segment — succeeds and changes nothing.
proof fn lemma_compose_clean(parts: Seq<Seq<char>>)
    requires
        parts.len() >= 1,
        forall|i: int| 0 <= i < parts.len() ==> !is_dot_segment(#[trigger] parts[i]) && !parts[
            i
        ].contains(':') && !parts[i].contains('@') && !parts[i].contains('/'),
        join_slash(parts).len() > 0,
    ensures
        compose_id(parts) == Ok::<Seq<char>, UrlError>(join_slash(parts)),
{
    lemma_sanitize_clean(parts);
    lemma_split_join(parts);
    let id = sanitize(join_slash(parts));
    assert(id == join_slash(parts));
    if exists|i: int| 0 <= i < split_on(id, '/').len() && is_dot_segment(split_on(id, '/')[i]) {
        let i = choose|i: int|
            0 <= i < split_on(id, '/').len() && is_dot_segment(split_on(id, '/')[i]);
        assert(!is_dot_segment(parts[i]));
    }
}

/// Stripping trailing separators from a string never adds characters.
proof fn lemma_strip_keeps_absent(s: Seq<char>, c: char)
    requires
        !s.contains(c),
    ensures
        !strip_trailing_slashes(s).contains(c),
    decreases s.len(),
{
    if s.len() > 0 && s.last() == '/' {
        assert(forall|j: int| 0 <= j < s.len() - 1 ==> s.drop_last()[j] == s[j]);
        assert(!s.drop_last().contains(c));
        lemma_strip_keeps_absent(s.drop_last(), c);
    }
}

/// For every well-formed HTTP(S) URL `scheme://host/org/repo[.git]` —
/// segments free of `/`, `:` and `@`, none equal to `.` or `..`, the repo
/// segment nonempty and not itself ending in `.git` — the canonicalizer
/// returns exactly `host/org/repo`.
#[verifier::rlimit(60)]
pub proof fn lemma_https_url_canonical(
    secure: bool,
    host: Seq<char>,
    org: Seq<char>,
    repo: Seq<char>,
    with_git: bool,
)
    requires
        !host.contains('/') && !host.contains(':') && !host.contains('@'),
        !org.contains('/') && !org.contains(':') && !org.contains('@'),
        !repo.contains('/') && !repo.contains(':') && !repo.contains('@'),
        !is_dot_segment(host) && !is_dot_segment(org) && !is_dot_segment(repo),
        repo.len() > 0,
        !(repo.len() >= 4 && repo.skip(repo.len() - 4) == dot_git()),
    ensures
        canonical_id(https_url(secure, host, org, repo, with_git)) == Ok::<Seq<char>, UrlError>(
            host + seq!['/'] + org + seq!['/'] + repo,
        ),
{
    let url = https_url(secure, host, org, repo, with_git);
    let prefix = if secure {
        https_prefix()
    } else {
        http_prefix()
    };
    let tail = if with_git {
        repo + dot_git()
    } else {
        repo
    };
    assert(url.len() > 0);
    assert(url.last() != '/') by {
        if with_git {
            assert(url.last() == dot_git()[3]);
        } else {
            assert(url.last() == repo.last());
            assert(repo.contains(repo.last()));
        }
    }
    assert(strip_trailing_slashes(url) == url);
    if secure {
        assert(url.take(8) =~= https_prefix());
        assert(url.take(7)[4] == 's');
        assert(url.take(7) != http_prefix());
        assert(scheme_rest(url) =~= host + seq!['/'] + org + seq!['/'] + tail);
    } else {
        assert(url.take(7) =~= http_prefix());
        assert(scheme_rest(url) =~= host + seq!['/'] + org + seq!['/'] + tail);
    }
    assert(has_url_scheme(url));
    let rest = scheme_rest(url);
    assert(!tail.contains('/')) by {
        if with_git {
            assert(forall|j: int| 0 <= j < repo.len() ==> tail[j] == repo[j]);
            assert(forall|j: int|
                repo.len() <= j < tail.len() ==> tail[j] == dot_git()[j - repo.len()]);
            if tail.contains('/') {
                let w = choose|j: int| 0 <= j < tail.len() && tail[j] == '/';
                if w < repo.len() {
                    assert(repo.contains('/'));
                }
            }
        }
    }
    assert(rest =~= host + seq!['/'] + (org + seq!['/'] + tail));
    lemma_split_sep(host, org + seq!['/'] + tail, '/');
    lemma_split_sep(org, tail, '/');
    lemma_split_no_sep(tail, '/');
    let parts = split_on(rest, '/');
    assert(parts =~= seq![host, org, tail]);
    assert(strip_git_suffix(repo) == repo);
    if with_git {
        assert(tail.skip(tail.len() - 4) =~= dot_git());
        assert(tail.take(tail.len() - 4) =~= repo);
        assert(strip_git_suffix(tail) == strip_git_suffix(repo));
    }
    let segs = seq![parts[0], parts[1], strip_git_suffix(parts[2])];
    assert(segs =~= seq![host, org, repo]);
    let joined = join_slash(segs);
    assert(seq![org, repo].skip(1) =~= seq![repo]);
    assert(join_slash(seq![repo]) == repo);
    assert(join_slash(seq![org, repo]) == org + seq!['/'] + repo);
    assert(segs.skip(1) =~= seq![org, repo]);
    assert(joined == host + seq!['/'] + join_slash(seq![org, repo]));
    assert(joined =~= host + seq!['/'] + org + seq!['/'] + repo);
    lemma_compose_clean(segs);
}

/// For every well-formed SSH URL `user@host:org/repo[.git]` the
/// canonicalizer returns exactly `host/org/repo`.  The user part may not
/// hold `@` (and may not make the URL start with an HTTP(S) scheme); the
/// other segments are free of `/`, `:` and `@` and are not `.` or `..`;
/// the repo segment is nonempty and does not itself end in `.git`.
#[verifier::rlimit(100)]
pub proof fn lemma_ssh_url_canonical(
    user: Seq<char>,
    host: Seq<char>,
    org: Seq<char>,
    repo: Seq<char>,
    with_git: bool,
)
    requires
        !user.contains('@'),
        !has_url_scheme(ssh_url(user, host, org, repo, with_git)),
        !host.contains('/') && !host.contains(':') && !host.contains('@'),
        !org.contains('/') && !org.contains(':') && !org.contains('@'),
        !repo.contains('/') && !repo.contains(':') && !repo.contains('@'),
        !is_dot_segment(host) && !is_dot_segment(org) && !is_dot_segment(repo),
        repo.len() > 0,
        !(repo.len() >= 4 && repo.skip(repo.len() - 4) == dot_git()),
    ensures
        canonical_id(ssh_url(user, host, org, repo, with_git)) == Ok::<Seq<char>, UrlError>(
            host + seq!['/'] + org + seq!['/'] + repo,
        ),
{
    let url = ssh_url(user, host, org, repo, with_git);
    let tail = if with_git {
        repo + dot_git()
    } else {
        repo
    };
    assert(url.len() > 0);
    assert(url.last() != '/') by {
        if with_git {
            assert(url.last() == dot_git()[3]);
        } else {
            assert(url.last() == repo.last());
            assert(repo.contains(repo.last()));
        }
    }
    assert(strip_trailing_slashes(url) == url);
    assert(!tail.contains('/') && !tail.contains(':') && !tail.contains('@')) by {
        if with_git {
            assert(forall|j: int| 0 <= j < repo.len() ==> tail[j] == repo[j]);
            assert(forall|j: int|
                repo.len() <= j < tail.len() ==> tail[j] == dot_git()[j - repo.len()]);
            assert(dot_git()[0] == '.' && dot_git()[1] == 'g' && dot_git()[2] == 'i' && dot_git()[3]
                == 't');
            if tail.contains('/') {
                let w = choose|j: int| 0 <= j < tail.len() && tail[j] == '/';
                if w < repo.len() {
                    assert(repo.contains('/'));
                }
            }
            if tail.contains(':') {
                let w = choose|j: int| 0 <= j < tail.len() && tail[j] == ':';
                if w < repo.len() {
                    assert(repo.contains(':'));
                }
            }
            if tail.contains('@') {
                let w = choose|j: int| 0 <= j < tail.len() && tail[j] == '@';
                if w < repo.len() {
                    assert(repo.contains('@'));
                }
            }
        }
    }
    let hp = host + seq![':'] + org + seq!['/'] + tail;
    assert(url =~= user + seq!['@'] + hp);
    assert(!hp.contains('@')) by {
        if hp.contains('@') {
            let w = choose|j: int| 0 <= j < hp.len() && hp[j] == '@';
            if w < host.len() {
                assert(host.contains('@'));
            } else if w == host.len() {
                assert(hp[w] == ':');
            } else if w < host.len() + 1 + org.len() {
                assert(org.contains('@'));
            } else if w == host.len() + 1 + org.len() {
                assert(hp[w] == '/');
            } else {
                assert(tail.contains('@'));
            }
        }
    }
    assert(url.contains('@')) by {
        assert(url[user.len() as int] == '@');
    }
    lemma_split_sep(user, hp, '@');
    lemma_split_no_sep(hp, '@');
    let at_parts = split_on(url, '@');
    assert(at_parts =~= seq![user, hp]);
    let op = org + seq!['/'] + tail;
    assert(hp =~= host + seq![':'] + op);
    lemma_split_sep(host, op, ':');
    assert(!op.contains(':')) by {
        if op.contains(':') {
            let w = choose|j: int| 0 <= j < op.len() && op[j] == ':';
            if w < org.len() {
                assert(org.contains(':'));
            } else if w == org.len() {
                assert(op[w] == '/');
            } else {
                assert(tail.contains(':'));
            }
        }
    }
    lemma_split_no_sep(op, ':');
    let colon_parts = split_on(hp, ':');
    assert(colon_parts =~= seq![host, op]);
    lemma_split_sep(org, tail, '/');
    lemma_split_no_sep(tail, '/');
    let path_parts = split_on(op, '/');
    assert(path_parts =~= seq![org, tail]);
    assert(strip_git_suffix(repo) == repo);
    if with_git {
        assert(tail.skip(tail.len() - 4) =~= dot_git());
        assert(tail.take(tail.len() - 4) =~= repo);
        assert(strip_git_suffix(tail) == strip_git_suffix(repo));
    }
    let segs = seq![host, org, repo];
    let joined = join_slash(segs);
    assert(seq![org, repo].skip(1) =~= seq![repo]);
    assert(join_slash(seq![repo]) == repo);
    assert(join_slash(seq![org, repo]) == org + seq!['/'] + repo);
    assert(segs.skip(1) =~= seq![org, repo]);
    assert(joined == host + seq!['/'] + join_slash(seq![org, repo]));
    assert(joined =~= host + seq!['/'] + org + seq!['/'] + repo);
    lemma_compose_clean(segs);
}

/// A bare hostname behind a scheme, with no path segments at all, is
/// always rejected; with a nonempty host the error is the segment count.
/// A well-formed SSH repository URL without an organization,
/// `user@host:repo[.git]`.
pub open spec fn ssh_repo_url(
    user: Seq<char>,
    host: Seq<char>,
    repo: Seq<char>,
    with_git: bool,
) -> Seq<char> {
    user + seq!['@'] + host + seq![':'] + repo + (if with_git {
        dot_git()
    } else {
        Seq::<char>::empty()
    })
}

/// For every well-formed SSH URL `user@host:repo[.git]` — the path a
/// single segment — the canonicalizer returns exactly `host/repo`.  The
/// side conditions are those of `lemma_ssh_url_canonical`.
#[verifier::rlimit(60)]
pub proof fn lemma_ssh_repo_url_canonical(
    user: Seq<char>,
    host: Seq<char>,
    repo: Seq<char>,
    with_git: bool,
)
    requires
        !user.contains('@'),
        !has_url_scheme(ssh_repo_url(user, host, repo, with_git)),
        !host.contains('/') && !host.contains(':') && !host.contains('@'),
        !repo.contains('/') && !repo.contains(':') && !repo.contains('@'),
        !is_dot_segment(host) && !is_dot_segment(repo),
        repo.len() > 0,
        !(repo.len() >= 4 && repo.skip(repo.len() - 4) == dot_git()),
    ensures
        canonical_id(ssh_repo_url(user, host, repo, with_git)) == Ok::<Seq<char>, UrlError>(
            host + seq!['/'] + repo,
        ),
{
    let url = ssh_repo_url(user, host, repo, with_git);
    let tail = if with_git {
        repo + dot_git()
    } else {
        repo
    };
    assert(url.len() > 0);
    assert(url.last() != '/') by {
        if with_git {
            assert(url.last() == dot_git()[3]);
        } else {
            assert(url.last() == repo.last());
            assert(repo.contains(repo.last()));
        }
    }
    assert(strip_trailing_slashes(url) == url);
    assert(!tail.contains('/') && !tail.contains(':') && !tail.contains('@')) by {
        if with_git {
            assert(forall|j: int| 0 <= j < repo.len() ==> tail[j] == repo[j]);
            assert(forall|j: int|
                repo.len() <= j < tail.len() ==> tail[j] == dot_git()[j - repo.len()]);
            assert(dot_git()[0] == '.' && dot_git()[1] == 'g' && dot_git()[2] == 'i' && dot_git()[3]
                == 't');
            if tail.contains('/') {
                let w = choose|j: int| 0 <= j < tail.len() && tail[j] == '/';
                if w < repo.len() {
                    assert(repo.contains('/'));
                }
            }
            if tail.contains(':') {
                let w = choose|j: int| 0 <= j < tail.len() && tail[j] == ':';
                if w < repo.len() {
                    assert(repo.contains(':'));
                }
            }
            if tail.contains('@') {
                let w = choose|j: int| 0 <= j < tail.len() && tail[j] == '@';
                if w < repo.len() {
                    assert(repo.contains('@'));
                }
            }
        }
    }
    let hp = host + seq![':'] + tail;
    assert(url =~= user + seq!['@'] + hp);
    assert(!hp.contains('@')) by {
        if hp.contains('@') {
            let w = choose|j: int| 0 <= j < hp.len() && hp[j] == '@';
            if w < host.len() {
                assert(host.contains('@'));
            } else if w == host.len() {
                assert(hp[w] == ':');
            } else {
                assert(tail.contains('@'));
            }
        }
    }
    assert(url.contains('@')) by {
        assert(url[user.len() as int] == '@');
    }
    lemma_split_sep(user, hp, '@');
    lemma_split_no_sep(hp, '@');
    let at_parts = split_on(url, '@');
    assert(at_parts =~= seq![user, hp]);
    lemma_split_sep(host, tail, ':');
    lemma_split_no_sep(tail, ':');
    let colon_parts = split_on(hp, ':');
    assert(colon_parts =~= seq![host, tail]);
    lemma_split_no_sep(tail, '/');
    let path_parts = split_on(tail, '/');
    assert(path_parts =~= seq![tail]);
    assert(strip_git_suffix(repo) == repo);
    if with_git {
        assert(tail.skip(tail.len() - 4) =~= dot_git());
        assert(tail.take(tail.len() - 4) =~= repo);
        assert(strip_git_suffix(tail) == strip_git_suffix(repo));
    }
    let segs = seq![host, repo];
    let joined = join_slash(segs);
    assert(segs.skip(1) =~= seq![repo]);
    assert(join_slash(seq![repo]) == repo);
    assert(joined =~= host + seq!['/'] + repo);
    lemma_compose_clean(segs);
}

#[verifier::rlimit(40)]
pub proof fn lemma_rejects_bare_hostname(secure: bool, host: Seq<char>)
    requires
        !host.contains('/'),
    ensures
        canonical_id(
            (if secure {
                https_prefix()
            } else {
                http_prefix()
            }) + host,
        ) is Err,
        host.len() > 0 ==> canonical_id(
            (if secure {
                https_prefix()
            } else {
                http_prefix()
            }) + host,
        ) == Err::<Seq<char>, UrlError>(UrlError::InsufficientSegments),
{
    let prefix = if secure {
        https_prefix()
    } else {
        http_prefix()
    };
    let url = prefix + host;
    if host.len() == 0 {
        assert(url =~= prefix);
        assert(url.last() == '/');
        assert(url.drop_last().last() == '/');
        if secure {
            let u6 = seq!['h', 't', 't', 'p', 's', ':'];
            assert(url.drop_last().drop_last() =~= u6);
            assert(u6.last() == ':');
            assert(strip_trailing_slashes(u6) == u6);
            assert(strip_trailing_slashes(url) == strip_trailing_slashes(url.drop_last()));
            assert(strip_trailing_slashes(url.drop_last()) == strip_trailing_slashes(u6));
            assert(!u6.contains('@')) by {
                if u6.contains('@') {
                    let w = choose|j: int| 0 <= j < u6.len() && u6[j] == '@';
                    assert(u6[w] == '@');
                }
            }
        } else {
            let u5 = seq!['h', 't', 't', 'p', ':'];
            assert(url.drop_last().drop_last() =~= u5);
            assert(u5.last() == ':');
            assert(strip_trailing_slashes(u5) == u5);
            assert(strip_trailing_slashes(url) == strip_trailing_slashes(url.drop_last()));
            assert(strip_trailing_slashes(url.drop_last()) == strip_trailing_slashes(u5));
            assert(!u5.contains('@')) by {
                if u5.contains('@') {
                    let w = choose|j: int| 0 <= j < u5.len() && u5[j] == '@';
                    assert(u5[w] == '@');
                }
            }
        }
    } else {
        assert(url.last() == host.last());
        assert(host.contains(host.last()));
        assert(url.last() != '/');
        assert(strip_trailing_slashes(url) == url);
        if secure {
            assert(url.take(8) =~= https_prefix());
            assert(url.take(7)[4] == 's');
            assert(url.take(7) != http_prefix());
            assert(scheme_rest(url) =~= host);
        } else {
            assert(url.take(7) =~= http_prefix());
            assert(scheme_rest(url) =~= host);
        }
        lemma_split_no_sep(host, '/');
    }
}

/// A URL with neither a recognized scheme (after trailing slashes are
/// stripped) nor an `@` is rejected as unsupported.
pub proof fn lemma_rejects_unsupported_shape(url: Seq<char>)
    requires
        !has_url_scheme(strip_trailing_slashes(url)),
        !url.contains('@'),
    ensures
        canonical_id(url) == Err::<Seq<char>, UrlError>(UrlError::UnsupportedShape),
{
    lemma_strip_keeps_absent(url, '@');
}

/// An SSH-style URL whose host-and-path part holds more than one `:` is
/// rejected as a malformed split.
pub proof fn lemma_rejects_ssh_extra_colon(url: Seq<char>)
    requires
        strip_trailing_slashes(url) == url,
        !has_url_scheme(url),
        url.contains('@'),
        split_on(url, '@').len() == 2,
        split_on(split_on(url, '@')[1], ':').len() >= 3,
    ensures
        canonical_id(url) == Err::<Seq<char>, UrlError>(UrlError::MalformedSshSplit),
{
}

} // verus!
