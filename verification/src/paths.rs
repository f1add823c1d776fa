//! Paths as texts, with `/` between their components.
use crate::text;
use vstd::prelude::*;

verus! {

pub open spec fn absolute(path: Seq<char>) -> bool {
    path.len() > 0 && path[0] == '/'
}

pub fn is_absolute(path: &str) -> (r: bool)
    ensures
        r == absolute(path@),
{
    let chars = text::chars_of(path);
    chars.len() > 0 && chars[0] == '/'
}

/// `path` taken relative to `base`; an absolute `path` stands for itself.
pub open spec fn joined_path(base: Seq<char>, path: Seq<char>) -> Seq<char> {
    if absolute(path) {
        path
    } else if base.len() == 0 || base.last() == '/' {
        base + path
    } else {
        base.push('/') + path
    }
}

pub fn join(base: &str, path: &str) -> (r: String)
    ensures
        r@ == joined_path(base@, path@),
{
    if is_absolute(path) {
        return text::copy(path);
    }
    let chars = text::chars_of(base);
    let mut out = text::copy(base);
    if chars.len() > 0 && chars[chars.len() - 1] != '/' {
        out.push('/');
    }
    out.push_str(path);
    out
}

/// `path` without slashes, and without `.` components, at its end.
pub open spec fn without_trailing(path: Seq<char>) -> Seq<char>
    decreases path.len(),
{
    if path.len() > 0 && path.last() == '/' {
        without_trailing(path.drop_last())
    } else if path.len() >= 2 && path.last() == '.' && path[path.len() - 2] == '/' {
        without_trailing(path.drop_last())
    } else {
        path
    }
}

/// What follows the last slash of `s`.
pub open spec fn after_last_slash(s: Seq<char>) -> Seq<char>
    decreases s.len(),
{
    if s.len() == 0 || s.last() == '/' {
        Seq::empty()
    } else {
        after_last_slash(s.drop_last()).push(s.last())
    }
}

/// The last component of `path`, where it is a name.
pub open spec fn file_name_of(path: Seq<char>) -> Option<Seq<char>> {
    let name = after_last_slash(without_trailing(path));
    if name.len() == 0 || name == seq!['.'] || name == seq!['.', '.'] {
        None
    } else {
        Some(name)
    }
}

fn strip_trailing(path: &str) -> (r: String)
    ensures
        r@ == without_trailing(path@),
{
    let chars = text::chars_of(path);
    let mut n: usize = chars.len();
    assert(path@.take(n as int) =~= path@);
    while n > 0 && (chars[n - 1] == '/' || (n >= 2 && chars[n - 1] == '.' && chars[n - 2] == '/'))
        invariant
            chars@ == path@,
            n <= chars@.len(),
            without_trailing(path@) == without_trailing(path@.take(n as int)),
        decreases n,
    {
        assert(path@.take(n as int).drop_last() =~= path@.take(n - 1));
        n = n - 1;
    }
    assert(path@.take(n as int) =~= path@.subrange(0, n as int));
    text::string_of(&chars, 0, n)
}

/// How many characters follow the last slash of `s`, and what they are.
fn last_component(s: &str) -> (r: (usize, String))
    ensures
        r.1@ == after_last_slash(s@),
        r.0 == after_last_slash(s@).len(),
        r.0 <= s@.len(),
{
    let chars = text::chars_of(s);
    let n: usize = chars.len();
    let mut start: usize = n;
    assert(s@.take(n as int) =~= s@);
    assert(after_last_slash(s@) =~= after_last_slash(s@.take(n as int)) + s@.subrange(
        n as int,
        n as int,
    ));
    while start > 0 && chars[start - 1] != '/'
        invariant
            chars@ == s@,
            n == chars@.len(),
            start <= n,
            after_last_slash(s@) == after_last_slash(s@.take(start as int)) + s@.subrange(
                start as int,
                n as int,
            ),
        decreases start,
    {
        let ghost head = s@.take(start as int);
        assert(head.last() == chars@[start - 1]);
        assert(head.drop_last() =~= s@.take(start - 1));
        assert(after_last_slash(s@.take(start - 1)).push(head.last()) + s@.subrange(
            start as int,
            n as int,
        ) =~= after_last_slash(s@.take(start - 1)) + s@.subrange(start - 1, n as int));
        start = start - 1;
    }
    assert(start > 0 ==> s@.take(start as int).last() == '/');
    assert(after_last_slash(s@.take(start as int)) =~= Seq::empty());
    let name = text::string_of(&chars, start, n);
    assert(name@ =~= after_last_slash(s@));
    (n - start, name)
}

pub fn file_name(path: &str) -> (r: Option<String>)
    ensures
        crate::json::opt_view(r) == file_name_of(path@),
{
    let kept = strip_trailing(path);
    let (n, name) = last_component(kept.as_str());
    proof {
        reveal_strlit(".");
        reveal_strlit("..");
        assert("."@ =~= seq!['.']);
        assert(".."@ =~= seq!['.', '.']);
    }
    if n == 0 || text::same(name.as_str(), ".") || text::same(name.as_str(), "..") {
        None
    } else {
        Some(name)
    }
}

/// The path of what holds the last component of an absolute `path`; the root has none.
pub open spec fn parent_of(path: Seq<char>) -> Option<Seq<char>> {
    let kept = without_trailing(path);
    let name = after_last_slash(kept);
    if name.len() == 0 {
        None
    } else {
        let head = without_trailing(kept.take(kept.len() - name.len()));
        Some(
            if head.len() == 0 {
                seq!['/']
            } else {
                head
            },
        )
    }
}

pub fn parent(path: &str) -> (r: Option<String>)
    requires
        absolute(path@),
    ensures
        crate::json::opt_view(r) == parent_of(path@),
{
    let kept = strip_trailing(path);
    let (n, _name) = last_component(kept.as_str());
    if n == 0 {
        return None;
    }
    let chars = text::chars_of(kept.as_str());
    let all: usize = chars.len();
    let before = text::string_of(&chars, 0, all - n);
    assert(before@ =~= kept@.take(all - n));
    let head = strip_trailing(before.as_str());
    if text::char_count(head.as_str()) == 0 {
        proof {
            reveal_strlit("/");
            assert("/"@ =~= seq!['/']);
        }
        Some(text::copy("/"))
    } else {
        Some(head)
    }
}

/// Where the last dot of `s` stands.
pub open spec fn last_dot(s: Seq<char>) -> Option<int>
    decreases s.len(),
{
    if s.len() == 0 {
        None
    } else if s.last() == '.' {
        Some(s.len() - 1)
    } else {
        last_dot(s.drop_last())
    }
}

/// What follows the last dot of the name of `path`, unless the name only starts with it.
pub open spec fn extension_of(path: Seq<char>) -> Option<Seq<char>> {
    match file_name_of(path) {
        Some(name) => match last_dot(name) {
            Some(i) => if i == 0 {
                None
            } else {
                Some(name.skip(i + 1))
            },
            None => None,
        },
        None => None,
    }
}

pub fn extension(path: &str) -> (r: Option<String>)
    ensures
        crate::json::opt_view(r) == extension_of(path@),
{
    match file_name(path) {
        Some(name) => {
            let chars = text::chars_of(name.as_str());
            let mut n: usize = chars.len();
            assert(name@.take(n as int) =~= name@);
            while n > 0 && chars[n - 1] != '.'
                invariant
                    chars@ == name@,
                    n <= chars@.len(),
                    last_dot(name@) == last_dot(name@.take(n as int)),
                decreases n,
            {
                assert(name@.take(n as int).drop_last() =~= name@.take(n - 1));
                n = n - 1;
            }
            if n == 0 {
                assert(last_dot(name@) is None);
                None
            } else if n == 1 {
                assert(name@.take(1).last() == '.');
                assert(last_dot(name@) == Some(0int));
                None
            } else {
                assert(name@.take(n as int).last() == '.');
                assert(last_dot(name@) == Some(n - 1));
                let out = text::string_of(&chars, n, chars.len());
                assert(out@ =~= name@.skip(n as int));
                Some(out)
            }
        },
        None => None,
    }
}

/// Whether the extension of `path` is that of an image format that can be attached.
pub open spec fn image_path(path: Seq<char>) -> bool {
    match extension_of(path) {
        Some(ext) => {
            let e = text::ascii_lowered(ext);
            e == "png"@ || e == "jpg"@ || e == "jpeg"@ || e == "webp"@ || e == "gif"@
        },
        None => false,
    }
}

pub fn is_supported_image_path(path: &str) -> (r: bool)
    ensures
        r == image_path(path@),
{
    match extension(path) {
        Some(ext) => {
            let e = text::to_ascii_lowercase(ext.as_str());
            text::same(e.as_str(), "png") || text::same(e.as_str(), "jpg") || text::same(
                e.as_str(),
                "jpeg",
            ) || text::same(e.as_str(), "webp") || text::same(e.as_str(), "gif")
        },
        None => false,
    }
}

/// The media type of the image at `path`, by its extension.
pub open spec fn image_type(path: Seq<char>) -> Seq<char> {
    match extension_of(path) {
        Some(ext) => {
            let e = text::ascii_lowered(ext);
            if e == "png"@ {
                "image/png"@
            } else if e == "jpg"@ || e == "jpeg"@ {
                "image/jpeg"@
            } else if e == "webp"@ {
                "image/webp"@
            } else if e == "gif"@ {
                "image/gif"@
            } else {
                "application/octet-stream"@
            }
        },
        None => "application/octet-stream"@,
    }
}

pub fn media_type(path: &str) -> (r: &'static str)
    ensures
        r@ == image_type(path@),
{
    match extension(path) {
        Some(ext) => {
            let e = text::to_ascii_lowercase(ext.as_str());
            if text::same(e.as_str(), "png") {
                "image/png"
            } else if text::same(e.as_str(), "jpg") || text::same(e.as_str(), "jpeg") {
                "image/jpeg"
            } else if text::same(e.as_str(), "webp") {
                "image/webp"
            } else if text::same(e.as_str(), "gif") {
                "image/gif"
            } else {
                "application/octet-stream"
            }
        },
        None => "application/octet-stream",
    }
}

} // verus!
