use vstd::prelude::*;

verus! {

/// The position of the last '.' in `s`, or -1 when it holds none.
pub open spec fn last_dot(s: Seq<char>) -> int
    decreases s.len(),
{
    if s.len() == 0 {
        -1
    } else if s.last() == '.' {
        s.len() - 1
    } else {
        last_dot(s.drop_last())
    }
}

/// The extension of an image path: what follows its last '.', or the whole path
/// when it holds none.
pub open spec fn spec_extension(path: Seq<char>) -> Seq<char> {
    path.subrange(last_dot(path) + 1, path.len() as int)
}

/// `last_dot` is -1 or the position of a '.', and no '.' follows it.
pub proof fn lemma_last_dot(s: Seq<char>)
    ensures
        -1 <= last_dot(s) < s.len(),
        last_dot(s) >= 0 ==> s[last_dot(s)] == '.',
        forall|j: int| last_dot(s) < j < s.len() ==> s[j] != '.',
    decreases s.len(),
{
    if s.len() > 0 && s.last() != '.' {
        lemma_last_dot(s.drop_last());
        assert forall|j: int| last_dot(s) < j < s.len() implies s[j] != '.' by {
            if j < s.len() - 1 {
                assert(s.drop_last()[j] == s[j]);
            }
        }
    }
}

/// The last '.' is the one before `i` when none stands at or after `i`.
proof fn lemma_last_dot_at(s: Seq<char>, i: int)
    requires
        0 <= i <= s.len(),
        forall|j: int| i <= j < s.len() ==> s[j] != '.',
        i == 0 || s[i - 1] == '.',
    ensures
        last_dot(s) == i - 1,
    decreases s.len(),
{
    if s.len() > 0 && s.len() > i {
        let t = s.drop_last();
        assert forall|j: int| i <= j < t.len() implies t[j] != '.' by {
            assert(t[j] == s[j]);
        }
        if i > 0 {
            assert(t[i - 1] == s[i - 1]);
        }
        lemma_last_dot_at(t, i);
    }
}

/// The extension of an image file, as the table file format names it: the part of
/// its path after the last '.', or the whole path when there is no '.'.
pub fn extension_of(path: &str) -> (ext: String)
    ensures
        ext@ == spec_extension(path@),
        ext@.len() <= path@.len(),
        ext@ == path@.subrange(path@.len() - ext@.len(), path@.len() as int),
        forall|k: int| 0 <= k < ext@.len() ==> ext@[k] != '.',
        ext@.len() == path@.len() || path@[path@.len() - ext@.len() - 1] == '.',
{
    let n = path.unicode_len();
    let mut i: usize = n;
    while i > 0 && path.get_char(i - 1) != '.'
        invariant
            i <= n,
            n == path@.len(),
            forall|j: int| i <= j < n ==> path@[j] != '.',
        decreases i,
    {
        i = i - 1;
    }
    proof {
        lemma_last_dot_at(path@, i as int);
        lemma_extension_characterized(path@);
    }
    path.substring_char(i, n).to_owned()
}

/// The extension is the whole tail of the path after its last '.': it ends where
/// the path ends, holds no '.', and is either the whole path or preceded by a '.'.
/// The path is the part up to and including that '.', followed by the extension.
pub proof fn lemma_extension_characterized(path: Seq<char>)
    ensures
        spec_extension(path).len() <= path.len(),
        spec_extension(path) == path.subrange(
            path.len() - spec_extension(path).len(),
            path.len() as int,
        ),
        forall|k: int| 0 <= k < spec_extension(path).len() ==> spec_extension(path)[k] != '.',
        spec_extension(path).len() == path.len() || path[path.len() - spec_extension(path).len()
            - 1] == '.',
        path == path.subrange(0, path.len() - spec_extension(path).len()) + spec_extension(path),
{
    lemma_last_dot(path);
    let e = spec_extension(path);
    assert(e.len() == path.len() - last_dot(path) - 1);
    assert forall|k: int| 0 <= k < e.len() implies e[k] != '.' by {
        assert(e[k] == path[last_dot(path) + 1 + k]);
    }
    assert(path =~= path.subrange(0, path.len() - e.len()) + e);
}

/// The file name under which an image's data is stored: its name, a '.', and the
/// extension of its path.
pub fn texture_file_name(name: &str, path: &str) -> (file: String)
    ensures
        file@ == name@ + seq!['.'] + spec_extension(path@),
{
    let ext = extension_of(path);
    let mut file = name.to_owned();
    file.append(".");
    file.append(ext.as_str());
    proof {
        reveal_strlit(".");
    }
    file
}

/// The path by which the asset server finds a file stored in memory.
pub fn memory_asset_path(file_name: &str) -> (p: String)
    ensures
        p@ == "memory://"@ + file_name@,
{
    let mut p = "memory://".to_owned();
    p.append(file_name);
    p
}

/// What the viewer needs to know of one image of a table.
pub struct ImageEntry {
    /// The image's name, by which table elements refer to it.
    pub name: String,
    /// The path the image was imported from.
    pub path: String,
    /// Whether the image carries encoded (JPEG, PNG, ...) data.
    pub has_jpeg: bool,
}

/// Whether an image can give the ball named `name` its texture.
pub open spec fn is_ball_texture(image: ImageEntry, name: Seq<char>) -> bool {
    image.name@ == name && image.has_jpeg
}

/// The positions, in increasing order, of the images named `name` that carry
/// encoded data.
pub open spec fn texture_positions(images: Seq<ImageEntry>, name: Seq<char>) -> Seq<int>
    decreases images.len(),
{
    if images.len() == 0 {
        Seq::empty()
    } else {
        let rest = texture_positions(images.drop_last(), name);
        if is_ball_texture(images.last(), name) {
            rest.push(images.len() - 1)
        } else {
            rest
        }
    }
}

/// The images whose data is stored for the ball's texture: each image named after
/// the table's front ball image that carries encoded data, in table order.
pub fn ball_texture_images(images: &Vec<ImageEntry>, ball_image_name: &str) -> (idx: Vec<usize>)
    ensures
        idx@.map_values(|i: usize| i as int) == texture_positions(images@, ball_image_name@),
        forall|k: int|
            0 <= k < idx@.len() ==> #[trigger] idx@[k] < images@.len() && images@[idx@[k] as int].name@
                == ball_image_name@ && images@[idx@[k] as int].has_jpeg,
        forall|a: int, b: int| 0 <= a < b < idx@.len() ==> #[trigger] idx@[a] < #[trigger] idx@[b],
        forall|j: int|
            0 <= j < images@.len() && (#[trigger] images@[j]).name@ == ball_image_name@
                && images@[j].has_jpeg ==> idx@.contains(j as usize),
{
    let name = ball_image_name.to_owned();
    let mut idx: Vec<usize> = Vec::new();
    let mut i: usize = 0;
    while i < images.len()
        invariant
            i <= images@.len(),
            name@ == ball_image_name@,
            idx@.map_values(|k: usize| k as int) == texture_positions(images@.take(i as int), name@),
        decreases images@.len() - i,
    {
        let ghost before = idx@;
        proof {
            assert(images@.take(i + 1).drop_last() =~= images@.take(i as int));
            assert(images@.take(i + 1).last() == images@[i as int]);
        }
        if images[i].name == name && images[i].has_jpeg {
            idx.push(i);
            proof {
                assert(idx@.map_values(|k: usize| k as int) =~= before.map_values(
                    |k: usize| k as int,
                ).push(i as int));
            }
        }
        i = i + 1;
    }
    proof {
        assert(images@.take(images@.len() as int) =~= images@);
        let pos = texture_positions(images@, ball_image_name@);
        lemma_texture_positions(images@, ball_image_name@);
        assert(idx@.len() == pos.len());
        assert forall|k: int| 0 <= k < idx@.len() implies idx@[k] as int == pos[k] by {
            assert(idx@.map_values(|i: usize| i as int)[k] == idx@[k] as int);
        }
        assert forall|k: int| 0 <= k < idx@.len() implies #[trigger] idx@[k] < images@.len()
            && images@[idx@[k] as int].name@ == ball_image_name@ && images@[idx@[k] as int].has_jpeg by {
            assert(idx@[k] as int == pos[k]);
        }
        assert forall|a: int, b: int| 0 <= a < b < idx@.len() implies #[trigger] idx@[a]
            < #[trigger] idx@[b] by {
            assert(idx@[a] as int == pos[a]);
            assert(idx@[b] as int == pos[b]);
        }
        assert forall|j: int|
            0 <= j < images@.len() && (#[trigger] images@[j]).name@ == ball_image_name@
                && images@[j].has_jpeg implies idx@.contains(j as usize) by {
            assert(pos.contains(j));
            let k = choose|k: int| 0 <= k < pos.len() && pos[k] == j;
            assert(idx@[k] as int == j);
        }
    }
    idx
}

/// The positions that `texture_positions` gives are exactly those of the images whose
/// name equals the ball image name and that carry data, each once and in increasing order.
pub proof fn lemma_texture_positions(images: Seq<ImageEntry>, name: Seq<char>)
    ensures
        forall|k: int|
            0 <= k < texture_positions(images, name).len() ==> 0 <= #[trigger] texture_positions(
                images,
                name,
            )[k] < images.len() && images[texture_positions(images, name)[k]].name@ == name && images[texture_positions(images, name)[k]].has_jpeg,
        forall|a: int, b: int|
            0 <= a < b < texture_positions(images, name).len() ==> #[trigger] texture_positions(
                images,
                name,
            )[a] < #[trigger] texture_positions(images, name)[b],
        forall|j: int|
            0 <= j < images.len() && (#[trigger] images[j]).name@ == name && images[j].has_jpeg ==> texture_positions(
                images,
                name,
            ).contains(j),
    decreases images.len(),
{
    if images.len() > 0 {
        let init = images.drop_last();
        lemma_texture_positions(init, name);
        let rest = texture_positions(init, name);
        assert forall|k: int| 0 <= k < rest.len() implies #[trigger] images[rest[k]] == init[rest[k]] by {}
        assert forall|j: int|
            0 <= j < images.len() && (#[trigger] images[j]).name@ == name && images[j].has_jpeg implies texture_positions(
                images,
                name,
            ).contains(j) by {
            if j < images.len() - 1 {
                assert(init[j] == images[j]);
                let k = choose|k: int| 0 <= k < rest.len() && rest[k] == j;
                if is_ball_texture(images.last(), name) {
                    assert(texture_positions(images, name)[k] == j);
                }
            } else {
                assert(texture_positions(images, name).last() == j);
            }
        }
    }
}

} // verus!
