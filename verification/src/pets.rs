//! Loading a terminal pet: whether a pet is named by a path or by its name,
//! the defaults a pet file may leave out, and the size of its spritesheet.

use vstd::prelude::*;

use crate::text::{str_chars, str_to_string};
use crate::worktree_paths::{join_path, path_join};

verus! {

pub open spec fn contains_char(s: Seq<char>, c: char) -> bool {
    exists|i: int| 0 <= i < s.len() && s[i] == c
}

pub open spec fn starts_with(s: Seq<char>, p: Seq<char>) -> bool {
    p.len() <= s.len() && s.take(p.len() as int) == p
}

/// A pet given as a path rather than a name: `.`, `..`, a path starting with
/// `~/`, `../` or `./`, an absolute path, or anything with a `/` or `\`.
pub open spec fn path_like_spec(v: Seq<char>) -> bool {
    v == "."@ || v == ".."@ || starts_with(v, "~/"@) || starts_with(v, "../"@) || starts_with(
        v,
        "./"@,
    ) || (v.len() > 0 && v[0] == '/') || contains_char(v, '/') || contains_char(v, '\\')
}

pub fn path_like(value: &str) -> (r: bool)
    ensures
        r == path_like_spec(value@),
{
    let v = str_chars(value);
    proof {
        reveal_strlit(".");
        reveal_strlit("..");
        reveal_strlit("~/");
        reveal_strlit("../");
        reveal_strlit("./");
    }
    let mut has_sep = false;
    let mut i: usize = 0;
    while i < v.len()
        invariant
            i <= v.len(),
            v@ == value@,
            has_sep == (exists|k: int| 0 <= k < i && (v@[k] == '/' || v@[k] == '\\')),
        decreases v.len() - i,
    {
        if v[i] == '/' || v[i] == '\\' {
            has_sep = true;
        }
        i = i + 1;
    }
    if has_sep {
        proof {
            let k = choose|k: int| 0 <= k < v@.len() && (v@[k] == '/' || v@[k] == '\\');
            assert(value@[k] == '/' || value@[k] == '\\');
        }
        return true;
    }
    assert(!contains_char(value@, '/') && !contains_char(value@, '\\'));
    // Without a separator, only `.` and `..` are path-like.
    assert(!starts_with(value@, "~/"@)) by {
        if starts_with(value@, "~/"@) {
            assert(value@[1] == "~/"@[1]);
        }
    }
    assert(!starts_with(value@, "../"@)) by {
        if starts_with(value@, "../"@) {
            assert(value@[2] == "../"@[2]);
        }
    }
    assert(!starts_with(value@, "./"@)) by {
        if starts_with(value@, "./"@) {
            assert(value@[1] == "./"@[1]);
        }
    }
    let is_dot = v.len() == 1 && v[0] == '.';
    let is_dotdot = v.len() == 2 && v[0] == '.' && v[1] == '.';
    assert(is_dot == (value@ == "."@)) by {
        if v@.len() == 1 && v@[0] == '.' {
            assert(value@ =~= "."@);
        }
    }
    assert(is_dotdot == (value@ == ".."@)) by {
        if v@.len() == 2 && v@[0] == '.' && v@[1] == '.' {
            assert(value@ =~= ".."@);
        }
    }
    is_dot || is_dotdot
}

/// The fields a pet file may leave empty, filled in: the id from the pet's
/// directory name (or `pet`), the display name from the id, and the
/// spritesheet `spritesheet.webp`.
pub open spec fn pet_defaults_spec(
    id: Seq<char>,
    display_name: Seq<char>,
    spritesheet: Seq<char>,
    dir_name: Option<Seq<char>>,
) -> (Seq<char>, Seq<char>, Seq<char>) {
    let id2 = if id.len() > 0 {
        id
    } else {
        match dir_name {
            Some(n) => n,
            None => "pet"@,
        }
    };
    (
        id2,
        if display_name.len() > 0 {
            display_name
        } else {
            id2
        },
        if spritesheet.len() > 0 {
            spritesheet
        } else {
            "spritesheet.webp"@
        },
    )
}

pub fn pet_defaults(id: String, display_name: String, spritesheet: String, dir_name: Option<String>) -> (r: (
    String,
    String,
    String,
))
    ensures
        (r.0@, r.1@, r.2@) == pet_defaults_spec(
            id@,
            display_name@,
            spritesheet@,
            crate::worktree::opt_view(dir_name),
        ),
{
    let id2 = if id.unicode_len() > 0 {
        id
    } else {
        match dir_name {
            Some(n) => n,
            None => str_to_string("pet"),
        }
    };
    let display = if display_name.unicode_len() > 0 {
        display_name
    } else {
        id2.clone()
    };
    let sheet = if spritesheet.unicode_len() > 0 {
        spritesheet
    } else {
        str_to_string("spritesheet.webp")
    };
    (id2, display, sheet)
}

/// Where the spritesheet is: as given when absolute, else inside the pet's
/// directory.
pub fn spritesheet_location(pet_dir: &str, spritesheet: &str) -> (r: String)
    ensures
        r@ == join_path(pet_dir@, spritesheet@),
{
    path_join(pet_dir, spritesheet)
}

/// How many frames a spritesheet of `columns` by `rows` holds.
pub fn frame_count(columns: u32, rows: u32) -> (r: usize)
    requires
        columns * rows <= u32::MAX,
    ensures
        r == columns * rows,
{
    (columns * rows) as usize
}

} // verus!
