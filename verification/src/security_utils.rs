//! Path-handling utilities: filename sanitization and path validation.
//!
//! Paths are modeled as character strings with `/` as the separator; the
//! filesystem itself (resolving a path that exists) is the host layer's
//! business, which hands the resolved form in as a plain string.

use vstd::prelude::*;
use vstd::string::StrSliceExecFns;

verus! {

/// The outcome of validating a path.
#[derive(Clone, Debug)]
pub struct PathValidationResult {
    /// Whether the path is valid.
    pub is_valid: bool,
    /// Sanitized path (if valid).
    pub sanitized_path: Option<String>,
    /// Error message (if invalid).
    pub error: Option<String>,
}

/// Security utilities.
pub struct SecurityUtils;

/// A character that may not appear in a filename.
pub open spec fn is_dangerous_filename_char(c: char) -> bool {
    ||| c == '/'
    ||| c == '\\'
    ||| c == ':'
    ||| c == '*'
    ||| c == '?'
    ||| c == '"'
    ||| c == '<'
    ||| c == '>'
    ||| c == '|'
}

/// A filename character with the dangerous ones replaced by underscores.
pub open spec fn sanitize_char(c: char) -> char {
    if is_dangerous_filename_char(c) {
        '_'
    } else {
        c
    }
}

/// The string with every leading `c` removed.
pub open spec fn trim_leading(s: Seq<char>, c: char) -> Seq<char>
    decreases s.len(),
{
    if s.len() > 0 && s.first() == c {
        trim_leading(s.drop_first(), c)
    } else {
        s
    }
}

/// The string with every trailing `c` removed.
pub open spec fn trim_trailing(s: Seq<char>, c: char) -> Seq<char>
    decreases s.len(),
{
    if s.len() > 0 && s.last() == c {
        trim_trailing(s.drop_last(), c)
    } else {
        s
    }
}

/// The string with every leading and trailing `c` removed.
pub open spec fn trim_both(s: Seq<char>, c: char) -> Seq<char> {
    trim_leading(trim_trailing(s, c), c)
}

/// What sanitizing a filename yields: dangerous characters replaced by
/// underscores, leading and trailing dots and then spaces removed, and a
/// placeholder where nothing remains.
pub open spec fn spec_sanitize_filename(s: Seq<char>) -> Seq<char> {
    let trimmed = trim_both(trim_both(s.map_values(|c: char| sanitize_char(c)), '.'), ' ');
    if trimmed.len() == 0 {
        "unnamed"@
    } else {
        trimmed
    }
}

/// Relies on `String::from_iter`: collects exactly the given characters.
#[verifier::external_body]
pub(crate) fn string_from_chars(v: &Vec<char>) -> (r: String)
    ensures
        r@ == v@,
{
    v.iter().collect()
}

/// The characters of a string, one by one.
pub fn str_chars(s: &str) -> (r: Vec<char>)
    ensures
        r@ == s@,
{
    let n = s.unicode_len();
    let mut r: Vec<char> = Vec::new();
    let mut i: usize = 0;
    while i < n
        invariant
            n == s@.len(),
            i <= n,
            r@ == s@.take(i as int),
        decreases n - i,
    {
        let c = s.get_char(i);
        r.push(c);
        proof {
            assert(r@ =~= s@.take(i + 1));
        }
        i += 1;
    }
    proof {
        assert(s@.take(n as int) =~= s@);
    }
    r
}

/// Removes every leading and trailing `c` from the characters.
fn trim_char(v: &Vec<char>, c: char) -> (r: Vec<char>)
    ensures
        r@ == trim_both(v@, c),
{
    let mut end: usize = v.len();
    proof {
        assert(v@.take(v@.len() as int) =~= v@);
    }
    while end > 0 && v[end - 1] == c
        invariant
            end <= v@.len(),
            trim_trailing(v@, c) == trim_trailing(v@.take(end as int), c),
        decreases end,
    {
        proof {
            assert(v@.take(end as int).drop_last() =~= v@.take(end - 1));
        }
        end -= 1;
    }
    proof {
        assert(trim_trailing(v@.take(end as int), c) == v@.take(end as int));
    }
    let mut start: usize = 0;
    while start < end && v[start] == c
        invariant
            start <= end <= v@.len(),
            trim_leading(v@.take(end as int), c) == trim_leading(
                v@.subrange(start as int, end as int),
                c,
            ),
        decreases end - start,
    {
        proof {
            assert(v@.subrange(start as int, end as int).drop_first() =~= v@.subrange(
                start + 1,
                end as int,
            ));
        }
        start += 1;
    }
    proof {
        assert(v@.take(end as int) =~= v@.subrange(0, end as int));
        assert(trim_leading(v@.subrange(start as int, end as int), c) == v@.subrange(
            start as int,
            end as int,
        ));
    }
    let mut r: Vec<char> = Vec::new();
    let mut i: usize = start;
    while i < end
        invariant
            start <= i <= end <= v@.len(),
            r@ == v@.subrange(start as int, i as int),
        decreases end - i,
    {
        r.push(v[i]);
        proof {
            assert(r@ =~= v@.subrange(start as int, i + 1));
        }
        i += 1;
    }
    r
}

/// Replaces a dangerous filename character by an underscore.
fn sanitize_char_exec(c: char) -> (r: char)
    ensures
        r == sanitize_char(c),
{
    match c {
        '/' => '_',
        '\\' => '_',
        ':' => '_',
        '*' => '_',
        '?' => '_',
        '"' => '_',
        '<' => '_',
        '>' => '_',
        '|' => '_',
        _ => c,
    }
}

impl SecurityUtils {
    /// Builds the utilities value.
    pub fn new() -> (r: Self) {
        SecurityUtils
    }

    /// Sanitizes a filename: replaces path separators and shell
    /// metacharacters by underscores, strips leading and trailing dots and
    /// spaces, and falls back to a placeholder name when nothing remains.
    pub fn sanitize_filename(&self, filename: String) -> (r: String)
        ensures
            r@ == spec_sanitize_filename(filename@),
    {
        let chars = str_chars(filename.as_str());
        let mut mapped: Vec<char> = Vec::new();
        let mut i: usize = 0;
        while i < chars.len()
            invariant
                i <= chars@.len(),
                mapped@.len() == i,
                forall|k: int| 0 <= k < i ==> mapped@[k] == sanitize_char(#[trigger] chars@[k]),
            decreases chars@.len() - i,
        {
            let c = sanitize_char_exec(chars[i]);
            mapped.push(c);
            i += 1;
        }
        proof {
            assert(mapped@ =~= chars@.map_values(|c: char| sanitize_char(c)));
        }
        let dots = trim_char(&mapped, '.');
        let spaces = trim_char(&dots, ' ');
        if spaces.len() == 0 {
            String::from_str("unnamed")
        } else {
            string_from_chars(&spaces)
        }
    }
}

/// Whether `c` occurs in `s`.
pub open spec fn contains_char(s: Seq<char>, c: char) -> bool {
    exists|i: int| 0 <= i < s.len() && s[i] == c
}

/// Whether two consecutive dots occur in `s`.
pub open spec fn contains_double_dot(s: Seq<char>) -> bool {
    exists|i: int| 0 <= i && i + 1 < s.len() && #[trigger] s[i] == '.' && s[i + 1] == '.'
}

/// One normalization step: closes the segment being read. Empty and
/// current-directory segments vanish, a parent-directory segment pops the
/// last kept segment, anything else is kept.
pub open spec fn close_segment(comps: Seq<Seq<char>>, cur: Seq<char>) -> Seq<Seq<char>> {
    if cur.len() == 0 || cur == seq!['.'] {
        comps
    } else if cur == seq!['.', '.'] {
        if comps.len() > 0 {
            comps.drop_last()
        } else {
            comps
        }
    } else {
        comps.push(cur)
    }
}

/// The kept segments of `s` from position `i` on, reading character by
/// character, given the segments kept so far and the partial segment read.
pub open spec fn segments_from(
    s: Seq<char>,
    i: int,
    comps: Seq<Seq<char>>,
    cur: Seq<char>,
) -> Seq<Seq<char>>
    decreases s.len() - i,
{
    if i >= s.len() {
        close_segment(comps, cur)
    } else if s[i] == '/' {
        segments_from(s, i + 1, close_segment(comps, cur), Seq::empty())
    } else {
        segments_from(s, i + 1, comps, cur.push(s[i]))
    }
}

/// The kept segments of a whole path, separators dropped, dot segments
/// resolved.
pub open spec fn normalized_segments(s: Seq<char>) -> Seq<Seq<char>> {
    segments_from(s, 0, Seq::empty(), Seq::empty())
}

/// Segments joined with the separator.
pub open spec fn join_segments(comps: Seq<Seq<char>>) -> Seq<char>
    decreases comps.len(),
{
    if comps.len() == 0 {
        Seq::empty()
    } else if comps.len() == 1 {
        comps[0]
    } else {
        join_segments(comps.drop_last()) + seq!['/'] + comps.last()
    }
}

/// Where a path that the filesystem could not resolve normalizes to: its
/// kept segments joined and rooted at the base path.
pub open spec fn spec_manual_normalize(path: Seq<char>, base: Seq<char>) -> Seq<char> {
    let joined = join_segments(normalized_segments(path));
    if base.len() == 0 {
        joined
    } else if joined.len() == 0 {
        base
    } else if base.last() == '/' {
        base + joined
    } else {
        base + seq!['/'] + joined
    }
}

/// The normalized form a validated path is compared and returned in: the
/// filesystem's resolution when there is one, the manual normalization
/// otherwise.
pub open spec fn spec_normalized_path(
    path: Seq<char>,
    base: Seq<char>,
    resolved: Option<Seq<char>>,
) -> Seq<char> {
    match resolved {
        Some(c) => c,
        None => spec_manual_normalize(path, base),
    }
}

/// Whether `p` lies within `base`: equal to it, or below it with a separator
/// at the boundary. One trailing separator on `base` is ignored.
pub open spec fn spec_path_starts_with(p: Seq<char>, base: Seq<char>) -> bool {
    let b = if base.len() > 0 && base.last() == '/' {
        base.drop_last()
    } else {
        base
    };
    p == b || (p.len() > b.len() && p.subrange(0, b.len() as int) == b && p[b.len() as int] == '/')
}

/// The first dangerous pattern occurring in a normalized path, if any: a
/// parent-directory marker, or a shell metacharacter.
pub open spec fn dangerous_pattern_in(s: Seq<char>) -> Option<Seq<char>> {
    if contains_double_dot(s) {
        Some(".."@)
    } else if contains_char(s, '~') {
        Some("~"@)
    } else if contains_char(s, '$') {
        Some("$"@)
    } else if contains_char(s, '|') {
        Some("|"@)
    } else if contains_char(s, ';') {
        Some(";"@)
    } else if contains_char(s, '&') {
        Some("&"@)
    } else if contains_char(s, '>') {
        Some(">"@)
    } else if contains_char(s, '<') {
        Some("<"@)
    } else if contains_char(s, '`') {
        Some("`"@)
    } else if contains_char(s, '\\') {
        Some("\\"@)
    } else {
        None
    }
}

/// Whether a path passes validation: free of embedded nul characters, inside
/// the base path once normalized, and free of dangerous patterns.
pub open spec fn spec_path_is_valid(
    path: Seq<char>,
    base: Seq<char>,
    resolved: Option<Seq<char>>,
) -> bool {
    let norm = spec_normalized_path(path, base, resolved);
    &&& !contains_char(path, '\0')
    &&& spec_path_starts_with(norm, base)
    &&& dangerous_pattern_in(norm) is None
}

/// The error message a rejected path gets: the first failed check names it.
pub open spec fn spec_path_error(
    path: Seq<char>,
    base: Seq<char>,
    resolved: Option<Seq<char>>,
) -> Seq<char> {
    let norm = spec_normalized_path(path, base, resolved);
    if contains_char(path, '\0') {
        "Path contains null bytes"@
    } else if !spec_path_starts_with(norm, base) {
        "Path traversal detected"@
    } else {
        match dangerous_pattern_in(norm) {
            Some(p) => "Dangerous pattern '"@ + p + "' detected"@,
            None => Seq::empty(),
        }
    }
}

/// Decides whether `c` occurs among the characters.
fn contains_char_exec(v: &Vec<char>, c: char) -> (r: bool)
    ensures
        r == contains_char(v@, c),
{
    let mut i: usize = 0;
    while i < v.len()
        invariant
            i <= v@.len(),
            forall|k: int| 0 <= k < i ==> v@[k] != c,
        decreases v@.len() - i,
    {
        if v[i] == c {
            return true;
        }
        i += 1;
    }
    false
}

/// Decides whether two consecutive dots occur among the characters.
fn contains_double_dot_exec(v: &Vec<char>) -> (r: bool)
    ensures
        r == contains_double_dot(v@),
{
    if v.len() < 2 {
        return false;
    }
    let mut i: usize = 0;
    while i < v.len() - 1
        invariant
            2 <= v@.len(),
            i + 1 <= v@.len(),
            forall|k: int| 0 <= k && k + 1 < i + 1 ==> !(#[trigger] v@[k] == '.' && v@[k + 1] == '.'),
        decreases v@.len() - i,
    {
        if v[i] == '.' && v[i + 1] == '.' {
            return true;
        }
        i += 1;
    }
    false
}

/// Builds the message naming a dangerous pattern.
fn dangerous_message(pattern: &str) -> (r: String)
    ensures
        r@ == "Dangerous pattern '"@ + pattern@ + "' detected"@,
{
    let mut r = String::new();
    r.append("Dangerous pattern '");
    r.append(pattern);
    r.append("' detected");
    proof {
        assert(r@ =~= "Dangerous pattern '"@ + pattern@ + "' detected"@);
    }
    r
}

/// A rejection carrying the given message.
fn rejection(message: String) -> (r: PathValidationResult)
    ensures
        !r.is_valid,
        r.sanitized_path is None,
        r.error matches Some(e) && e == message,
{
    PathValidationResult { is_valid: false, sanitized_path: None, error: Some(message) }
}

/// Decides whether `p` lies within `base`, component-wise.
fn path_starts_with_exec(p: &Vec<char>, base: &Vec<char>) -> (r: bool)
    ensures
        r == spec_path_starts_with(p@, base@),
{
    let blen: usize = if base.len() > 0 && base[base.len() - 1] == '/' {
        base.len() - 1
    } else {
        base.len()
    };
    proof {
        assert((if base@.len() > 0 && base@.last() == '/' {
            base@.drop_last()
        } else {
            base@
        }) =~= base@.take(blen as int));
    }
    if p.len() < blen {
        return false;
    }
    let mut i: usize = 0;
    while i < blen
        invariant
            i <= blen <= p@.len(),
            blen <= base@.len(),
            forall|k: int| 0 <= k < i ==> p@[k] == base@[k],
        decreases blen - i,
    {
        if p[i] != base[i] {
            proof {
                assert(p@.subrange(0, blen as int)[i as int] != base@.take(blen as int)[i as int]);
            }
            return false;
        }
        i += 1;
    }
    proof {
        assert(p@.subrange(0, blen as int) =~= base@.take(blen as int) || p@.len() < blen);
        if p@.len() == blen {
            assert(p@ =~= base@.take(blen as int));
        }
    }
    if p.len() == blen {
        true
    } else {
        p[blen] == '/'
    }
}

/// Closes the segment being read into the kept segments.
fn close_segment_exec(comps: &mut Vec<Vec<char>>, cur: Vec<char>)
    ensures
        final(comps).deep_view() == close_segment(old(comps).deep_view(), cur@),
{
    if cur.len() == 0 || (cur.len() == 1 && cur[0] == '.') {
        proof {
            if cur@.len() == 1 {
                assert(cur@ =~= seq!['.']);
            }
        }
    } else if cur.len() == 2 && cur[0] == '.' && cur[1] == '.' {
        proof {
            assert(cur@ =~= seq!['.', '.']);
        }
        if comps.len() > 0 {
            let ghost before = comps.deep_view();
            comps.pop();
            proof {
                assert(comps.deep_view() =~= before.drop_last());
            }
        }
    } else {
        proof {
            assert(cur@ != seq!['.'] && cur@ != seq!['.', '.']) by {
                if cur@ =~= seq!['.'] {
                    assert(cur@[0] == '.');
                }
                if cur@ =~= seq!['.', '.'] {
                    assert(cur@[0] == '.' && cur@[1] == '.');
                }
            }
        }
        let ghost before = comps.deep_view();
        let ghost curv = cur@;
        comps.push(cur);
        proof {
            assert(comps.deep_view() =~~= before.push(curv));
        }
    }
}

/// Normalizes a path that the filesystem could not resolve: splits it on the
/// separator, resolves dot segments, and roots the result at the base path.
fn manual_normalize(path: &str, base: &str) -> (r: String)
    ensures
        r@ == spec_manual_normalize(path@, base@),
{
    let chars = str_chars(path);
    let mut comps: Vec<Vec<char>> = Vec::new();
    let mut cur: Vec<char> = Vec::new();
    let mut i: usize = 0;
    proof {
        assert(comps.deep_view() =~= Seq::<Seq<char>>::empty());
        assert(cur@ =~= Seq::<char>::empty());
    }
    while i < chars.len()
        invariant
            i <= chars@.len(),
            chars@ == path@,
            normalized_segments(path@) == segments_from(path@, i as int, comps.deep_view(), cur@),
        decreases chars@.len() - i,
    {
        let c = chars[i];
        if c == '/' {
            let done = cur;
            cur = Vec::new();
            close_segment_exec(&mut comps, done);
            proof {
                assert(cur@ =~= Seq::<char>::empty());
            }
        } else {
            cur.push(c);
        }
        i += 1;
    }
    close_segment_exec(&mut comps, cur);
    let ghost segs = normalized_segments(path@);
    proof {
        assert(comps.deep_view() == segs);
    }

    let mut joined: Vec<char> = Vec::new();
    let mut k: usize = 0;
    proof {
        assert(segs.take(0) =~= Seq::<Seq<char>>::empty());
    }
    while k < comps.len()
        invariant
            k <= comps@.len(),
            comps.deep_view() == segs,
            joined@ == join_segments(segs.take(k as int)),
        decreases comps@.len() - k,
    {
        if k > 0 {
            joined.push('/');
        }
        let ghost sofar = joined@;
        let seg = &comps[k];
        proof {
            assert(seg@ == segs[k as int]);
        }
        let mut m: usize = 0;
        while m < seg.len()
            invariant
                m <= seg@.len(),
                seg@ == segs[k as int],
                joined@ == sofar + seg@.take(m as int),
            decreases seg@.len() - m,
        {
            joined.push(seg[m]);
            proof {
                assert(joined@ =~= sofar + seg@.take(m + 1));
            }
            m += 1;
        }
        proof {
            assert(seg@.take(seg@.len() as int) =~= seg@);
            assert(segs.take(k + 1).drop_last() =~= segs.take(k as int));
            assert(segs.take(k + 1).last() == segs[k as int]);
            if k == 0 {
                assert(joined@ =~= join_segments(segs.take(1)));
            } else {
                assert(joined@ =~= join_segments(segs.take(k as int)) + seq!['/'] + segs[k as int]);
            }
        }
        k += 1;
    }
    proof {
        assert(segs.take(comps@.len() as int) =~= segs);
    }

    let bchars = str_chars(base);
    if bchars.len() == 0 {
        return string_from_chars(&joined);
    }
    if joined.len() == 0 {
        return string_from_chars(&bchars);
    }
    let mut full: Vec<char> = Vec::new();
    let mut t: usize = 0;
    while t < bchars.len()
        invariant
            t <= bchars@.len(),
            bchars@ == base@,
            full@ == base@.take(t as int),
        decreases bchars@.len() - t,
    {
        full.push(bchars[t]);
        proof {
            assert(full@ =~= base@.take(t + 1));
        }
        t += 1;
    }
    proof {
        assert(base@.take(base@.len() as int) =~= base@);
    }
    if bchars[bchars.len() - 1] != '/' {
        full.push('/');
    }
    let ghost rooted = full@;
    let mut u: usize = 0;
    while u < joined.len()
        invariant
            u <= joined@.len(),
            full@ == rooted + joined@.take(u as int),
        decreases joined@.len() - u,
    {
        full.push(joined[u]);
        proof {
            assert(full@ =~= rooted + joined@.take(u + 1));
        }
        u += 1;
    }
    proof {
        assert(joined@.take(joined@.len() as int) =~= joined@);
        assert(full@ =~= spec_manual_normalize(path@, base@));
    }
    string_from_chars(&full)
}

impl SecurityUtils {
    /// Validates a path against a base directory: rejects embedded nul
    /// characters, normalizes the path (taking the filesystem's resolution,
    /// when the host layer has one, as `resolved`), requires the result to
    /// lie within the base, and rejects dangerous patterns anywhere in the
    /// normalized form.
    pub fn validate_path(&self, path: String, base_path: String, resolved: Option<String>) -> (r:
        PathValidationResult)
        ensures
            ({
                let res = match resolved {
                    Some(c) => Some(c@),
                    None => None::<Seq<char>>,
                };
                &&& r.is_valid == spec_path_is_valid(path@, base_path@, res)
                &&& r.is_valid ==> (r.sanitized_path matches Some(s) && s@ == spec_normalized_path(
                    path@,
                    base_path@,
                    res,
                ) && r.error is None)
                &&& !r.is_valid ==> (r.sanitized_path is None && (r.error matches Some(e) && e@
                    == spec_path_error(path@, base_path@, res)))
            }),
    {
        let pchars = str_chars(path.as_str());
        if contains_char_exec(&pchars, '\0') {
            return rejection(String::from_str("Path contains null bytes"));
        }
        let norm: String = match resolved {
            Some(c) => c,
            None => manual_normalize(path.as_str(), base_path.as_str()),
        };
        let nchars = str_chars(norm.as_str());
        let bchars = str_chars(base_path.as_str());
        if !path_starts_with_exec(&nchars, &bchars) {
            return rejection(String::from_str("Path traversal detected"));
        }
        if contains_double_dot_exec(&nchars) {
            return rejection(dangerous_message(".."));
        }
        if contains_char_exec(&nchars, '~') {
            return rejection(dangerous_message("~"));
        }
        if contains_char_exec(&nchars, '$') {
            return rejection(dangerous_message("$"));
        }
        if contains_char_exec(&nchars, '|') {
            return rejection(dangerous_message("|"));
        }
        if contains_char_exec(&nchars, ';') {
            return rejection(dangerous_message(";"));
        }
        if contains_char_exec(&nchars, '&') {
            return rejection(dangerous_message("&"));
        }
        if contains_char_exec(&nchars, '>') {
            return rejection(dangerous_message(">"));
        }
        if contains_char_exec(&nchars, '<') {
            return rejection(dangerous_message("<"));
        }
        if contains_char_exec(&nchars, '`') {
            return rejection(dangerous_message("`"));
        }
        if contains_char_exec(&nchars, '\\') {
            return rejection(dangerous_message("\\"));
        }
        PathValidationResult { is_valid: true, sanitized_path: Some(norm), error: None }
    }
}

/// One-call path validation: whether the path passes `validate_path`.
pub fn quick_validate_path(path: String, base_path: String, resolved: Option<String>) -> (r: bool)
    ensures
        r == spec_path_is_valid(
            path@,
            base_path@,
            match resolved {
                Some(c) => Some(c@),
                None => None::<Seq<char>>,
            },
        ),
{
    let utils = SecurityUtils::new();
    let result = utils.validate_path(path, base_path, resolved);
    result.is_valid
}

} // verus!
