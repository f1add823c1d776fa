//! Paths come apart as they were put together, and bytes are read back from base 64.
use crate::base64;
use crate::paths;
use crate::text;
use vstd::prelude::*;

verus! {

/// Whether `name` can be the name of a file: it is not empty, holds no slash and is none of the
/// two names for a directory itself and for the one above.
pub open spec fn plain_name(name: Seq<char>) -> bool {
    &&& name.len() > 0
    &&& !name.contains('/')
    &&& name != seq!['.']
    &&& name != seq!['.', '.']
}

proof fn lemma_after_slash(head: Seq<char>, name: Seq<char>)
    requires
        !name.contains('/'),
    ensures
        paths::after_last_slash(head.push('/') + name) == name,
    decreases name.len(),
{
    let s = head.push('/') + name;
    if name.len() == 0 {
        assert(s =~= head.push('/'));
        assert(paths::after_last_slash(s) =~= name);
    } else {
        let less = name.drop_last();
        assert(!less.contains('/')) by {
            if less.contains('/') {
                let i = less.index_of('/');
                assert(name[i] == '/');
            }
        }
        lemma_after_slash(head, less);
        assert(s.drop_last() =~= head.push('/') + less);
        assert(name.contains(name[name.len() - 1]));
        assert(s.last() == name.last() && name.last() != '/');
        assert(less.push(name.last()) =~= name);
    }
}

proof fn lemma_trailing_len(path: Seq<char>)
    ensures
        paths::without_trailing(path).len() <= path.len(),
    decreases path.len(),
{
    if path.len() > 0 {
        lemma_trailing_len(path.drop_last());
    }
}

/// A name put behind a directory is the name of the path, and the directory is what holds it.
pub proof fn law_path_comes_apart(dir: Seq<char>, name: Seq<char>)
    requires
        dir.len() > 0,
        paths::without_trailing(dir) == dir,
        plain_name(name),
    ensures
        paths::file_name_of(paths::joined_path(dir, name)) == Some(name),
        paths::parent_of(paths::joined_path(dir, name)) == Some(dir),
        paths::absolute(dir) ==> paths::absolute(paths::joined_path(dir, name)),
{
    assert(name.contains(name[0]) && name.contains(name[name.len() - 1]));
    assert(!paths::absolute(name));
    assert(dir.last() != '/') by {
        lemma_trailing_len(dir.drop_last());
    }
    let p = dir.push('/') + name;
    assert(p == paths::joined_path(dir, name));
    assert(p.last() == name.last());
    if name.len() == 1 {
        assert(name =~= seq![name.last()]);
    } else {
        assert(name.contains(name[name.len() - 2]));
        assert(p[p.len() - 2] == name[name.len() - 2]);
    }
    assert(paths::without_trailing(p) == p);
    lemma_after_slash(dir, name);
    assert(p.take(p.len() - name.len()) =~= dir.push('/'));
    assert(dir.push('/').drop_last() =~= dir);
    assert(paths::without_trailing(dir.push('/')) == dir);
}

/// An absolute path stands for itself wherever it is taken from.
pub proof fn law_absolute_path_stands(dir: Seq<char>, path: Seq<char>)
    requires
        paths::absolute(path),
    ensures
        paths::joined_path(dir, path) == path,
{
}

proof fn lemma_last_dot(stem: Seq<char>, ext: Seq<char>)
    requires
        !ext.contains('.'),
    ensures
        paths::last_dot(stem.push('.') + ext) == Some(stem.len() as int),
    decreases ext.len(),
{
    let s = stem.push('.') + ext;
    if ext.len() == 0 {
        assert(s =~= stem.push('.'));
    } else {
        let less = ext.drop_last();
        assert(!less.contains('.')) by {
            if less.contains('.') {
                let i = less.index_of('.');
                assert(ext[i] == '.');
            }
        }
        lemma_last_dot(stem, less);
        assert(s.drop_last() =~= stem.push('.') + less);
        assert(ext.contains(ext[ext.len() - 1]));
        assert(s.last() == ext.last());
    }
}

/// The extension of a file is what stands behind the last dot of its name.
pub proof fn law_extension(dir: Seq<char>, stem: Seq<char>, ext: Seq<char>)
    requires
        dir.len() > 0,
        paths::without_trailing(dir) == dir,
        stem.len() > 0,
        !ext.contains('.'),
        plain_name(stem.push('.') + ext),
    ensures
        paths::extension_of(paths::joined_path(dir, stem.push('.') + ext)) == Some(ext),
{
    let name = stem.push('.') + ext;
    law_path_comes_apart(dir, name);
    lemma_last_dot(stem, ext);
    assert(name.skip(stem.len() as int + 1) =~= ext);
}

/// An image has the type of its format, whatever the case of its extension, and what is attached
/// as an image has one.
pub proof fn law_image_has_the_type_of_its_format(path: Seq<char>, ext: Seq<char>)
    requires
        paths::extension_of(path) == Some(ext),
    ensures
        text::ascii_lowered(ext) == "png"@ ==> paths::image_type(path) == "image/png"@,
        text::ascii_lowered(ext) == "jpg"@ ==> paths::image_type(path) == "image/jpeg"@,
        text::ascii_lowered(ext) == "jpeg"@ ==> paths::image_type(path) == "image/jpeg"@,
        text::ascii_lowered(ext) == "webp"@ ==> paths::image_type(path) == "image/webp"@,
        text::ascii_lowered(ext) == "gif"@ ==> paths::image_type(path) == "image/gif"@,
        paths::image_path(path) <==> paths::image_type(path) != "application/octet-stream"@,
{
    reveal_strlit("png");
    reveal_strlit("jpg");
    reveal_strlit("jpeg");
    reveal_strlit("webp");
    reveal_strlit("gif");
    assert("png"@[0] == 'p' && "jpg"@[0] == 'j' && "jpeg"@.len() == 4 && "jpg"@.len() == 3);
    assert("webp"@[0] == 'w' && "gif"@[0] == 'g' && "jpeg"@[0] == 'j');
    reveal_strlit("image/png");
    reveal_strlit("image/jpeg");
    reveal_strlit("image/webp");
    reveal_strlit("image/gif");
    reveal_strlit("application/octet-stream");
    assert("application/octet-stream"@.len() == 24);
    assert("image/png"@.len() == 9 && "image/jpeg"@.len() == 10);
    assert("image/webp"@.len() == 10 && "image/gif"@.len() == 9);
}

/// The value of a digit of base 64; the sign at the end stands for nothing.
pub open spec fn value_of(c: char) -> int {
    if 'A' <= c && c <= 'Z' {
        c as int - 65
    } else if 'a' <= c && c <= 'z' {
        c as int - 97 + 26
    } else if '0' <= c && c <= '9' {
        c as int - 48 + 52
    } else if c == '+' {
        62
    } else if c == '/' {
        63
    } else {
        0
    }
}

proof fn lemma_digit(n: int)
    requires
        0 <= n < 64,
    ensures
        value_of(base64::digit_of(n)) == n,
{
}

proof fn lemma_digits_of_group(x: int, y: int, z: int)
    requires
        0 <= x < 256,
        0 <= y < 256,
        0 <= z < 256,
    ensures
        ({
            let w = 65536 * x + 256 * y + z;
            &&& w / 262144 == x / 4
            &&& w / 4096 % 64 == 16 * (x % 4) + y / 16
            &&& w / 64 % 64 == 4 * (y % 16) + z / 64
            &&& w % 64 == z % 64
        }),
{
    let w = 65536 * x + 256 * y + z;
    let a = x / 4;
    let b = x % 4;
    let c = y / 16;
    let d = y % 16;
    let e = z / 64;
    let f = z % 64;
    assert(x == 4 * a + b && y == 16 * c + d && z == 64 * e + f);
    assert(w == 262144 * a + 4096 * (16 * b + c) + 64 * (4 * d + e) + f);
    assert(w / 262144 == a);
    assert(w / 4096 == 64 * a + (16 * b + c));
    assert(w / 64 == 4096 * a + 64 * (16 * b + c) + (4 * d + e));
}

/// Each byte is read back from the digits that its group is written with.
pub proof fn law_bytes_are_read_back(bytes: Seq<u8>, g: int)
    requires
        0 <= g,
        3 * g < bytes.len(),
    ensures
        ({
            let s = base64::base64_of(bytes);
            let a = value_of(s[4 * g]);
            let b = value_of(s[4 * g + 1]);
            let c = value_of(s[4 * g + 2]);
            let d = value_of(s[4 * g + 3]);
            &&& 4 * g + 3 < s.len()
            &&& bytes[3 * g] == 4 * a + b / 16
            &&& 3 * g + 1 < bytes.len() ==> bytes[3 * g + 1] == 16 * (b % 16) + c / 4
            &&& 3 * g + 2 < bytes.len() ==> bytes[3 * g + 2] == 64 * (c % 4) + d
            &&& 3 * g + 1 == bytes.len() ==> s[4 * g + 2] == '=' && s[4 * g + 3] == '='
            &&& 3 * g + 2 == bytes.len() ==> s[4 * g + 3] == '='
        }),
{
    let s = base64::base64_of(bytes);
    let x = base64::byte_at(bytes, 3 * g);
    let y = base64::byte_at(bytes, 3 * g + 1);
    let z = base64::byte_at(bytes, 3 * g + 2);
    lemma_digits_of_group(x, y, z);
    lemma_digit(x / 4);
    lemma_digit(16 * (x % 4) + y / 16);
    lemma_digit(4 * (y % 16) + z / 64);
    lemma_digit(z % 64);
    lemma_place(g);
    assert(4 * g + 3 < s.len());
    assert(s[4 * g] == base64::digit_of(x / 4));
    assert(s[4 * g + 1] == base64::digit_of(16 * (x % 4) + y / 16));
    assert(s[4 * g + 2] == (if 3 * g + 1 >= bytes.len() {
        '='
    } else {
        base64::digit_of(4 * (y % 16) + z / 64)
    }));
    assert(s[4 * g + 3] == (if 3 * g + 2 >= bytes.len() {
        '='
    } else {
        base64::digit_of(z % 64)
    }));
    lemma_bytes(x, y, z);
}

proof fn lemma_place(g: int)
    ensures
        (4 * g) / 4 == g,
        (4 * g + 1) / 4 == g,
        (4 * g + 2) / 4 == g,
        (4 * g + 3) / 4 == g,
        (4 * g) % 4 == 0,
        (4 * g + 1) % 4 == 1,
        (4 * g + 2) % 4 == 2,
        (4 * g + 3) % 4 == 3,
{
}

proof fn lemma_bytes(x: int, y: int, z: int)
    requires
        0 <= x < 256,
        0 <= y < 256,
        0 <= z < 256,
    ensures
        ({
            let b = 16 * (x % 4) + y / 16;
            let c = 4 * (y % 16) + z / 64;
            &&& x == 4 * (x / 4) + b / 16
            &&& y == 16 * (b % 16) + c / 4
            &&& z == 64 * (c % 4) + z % 64
        }),
{
}

/// Bytes take four digits for each three of them that are begun.
pub proof fn law_length_in_base64(bytes: Seq<u8>)
    ensures
        base64::base64_of(bytes).len() % 4 == 0,
        4 * bytes.len() <= 3 * base64::base64_of(bytes).len() <= 4 * bytes.len() + 8,
{
}

} // verus!
