//! Line-oriented scans of file contents: the title in a document's front
//! matter, the container images and resources declared in a Terraform file,
//! and the matching of image references to containerised entities.

use vstd::prelude::*;
use crate::model::entity::{Entity, EntityKind};
use crate::paths::{components, split, split_on, views, lemma_split_nonempty};
use crate::text::{
    chars_match_at, chars_of, match_at, contains_chars, contains_seq, find_chars, find_from, starts_with,
    starts_with_chars, string_of, string_of_range, subvec, trim, trim_bounds, trim_char,
    trim_char_bounds, trim_start, trim_start_bound,
};

verus! {

// ---------------------------------------------------------------------------
// Front matter
// ---------------------------------------------------------------------------

/// What a front-matter line says of the title: `None` when the trimmed line
/// does not start with `title`; otherwise the value after the separator,
/// trimmed and without surrounding quotes, or `Some(None)` when the
/// separator is missing.
pub open spec fn title_value(line: Seq<char>, sep: char) -> Option<Option<Seq<char>>> {
    let t = trim(line);
    if starts_with(t, "title"@) {
        let v = trim_start(t.skip(5));
        if v.len() > 0 && v[0] == sep {
            Some(Some(trim_char(trim(v.skip(1)), '"')))
        } else {
            Some(None)
        }
    } else {
        None
    }
}

/// The title given by the first title line among `lines`.
pub open spec fn title_from_lines(lines: Seq<Seq<char>>, sep: char) -> Option<Seq<char>>
    decreases lines.len(),
{
    if lines.len() == 0 {
        None
    } else {
        match title_value(lines[0], sep) {
            Some(r) => r,
            None => title_from_lines(lines.drop_first(), sep),
        }
    }
}

/// The title in TOML (`+++ ... +++`, `title = ...`) or YAML
/// (`--- ... ---`, `title: ...`) front matter.
pub open spec fn frontmatter_title(content: Seq<char>) -> Option<Seq<char>> {
    if starts_with(content, "+++"@) {
        let rest = content.skip(3);
        match find_from(rest, "+++"@, 0) {
            None => None,
            Some(e) => title_from_lines(split(rest.take(e), '\n'), '='),
        }
    } else if starts_with(content, "---"@) {
        let rest = content.skip(3);
        match find_from(rest, "---"@, 0) {
            None => None,
            Some(e) => title_from_lines(split(rest.take(e), '\n'), ':'),
        }
    } else {
        None
    }
}

fn title_line(l: &Vec<char>, sep: char) -> (res: Option<Option<String>>)
    ensures
        match title_value(l@, sep) {
            None => res is None,
            Some(None) => res matches Some(r) && r is None,
            Some(Some(t)) => res matches Some(r) && r matches Some(x) && x@ == t,
        },
{
    proof {
        reveal_strlit("title");
    }
    let title = chars_of("title");
    let (a, b) = trim_bounds(l, 0, l.len());
    let ghost t = l@.subrange(a as int, b as int);
    assert(l@.subrange(0, l@.len() as int) == l@);
    let is_title = b - a >= 5 && chars_match_at(l, &title, a);
    proof {
        if b - a >= 5 {
            assert(t.take(5) == l@.subrange(a as int, a + 5));
        }
    }
    if !is_title {
        return None;
    }
    let c = trim_start_bound(l, a + 5, b);
    assert(t.skip(5) == l@.subrange(a + 5, b as int));
    let ghost v = l@.subrange(c as int, b as int);
    if c < b && l[c] == sep {
        let (x, y) = trim_bounds(l, c + 1, b);
        assert(v.skip(1) == l@.subrange(c + 1, b as int));
        let (p, q) = trim_char_bounds(l, x, y, '"');
        Some(Some(string_of_range(l, p, q)))
    } else {
        Some(None)
    }
}

/// The title of a document from its TOML (`+++`) or YAML (`---`) front
/// matter: the first line of the front matter that starts with `title`
/// decides, with `=` (TOML) or `:` (YAML) after it. The value is trimmed
/// and loses its surrounding double quotes. `None` without front matter,
/// without a closing fence, without a title line, or when the first title
/// line lacks the separator.
pub fn parse_frontmatter_title(content: &str) -> (res: Option<String>)
    ensures
        match frontmatter_title(content@) {
            None => res is None,
            Some(t) => res matches Some(r) && r@ == t,
        },
{
    proof {
        reveal_strlit("+++");
        reveal_strlit("---");
    }
    let v = chars_of(content);
    let plus = chars_of("+++");
    let dash = chars_of("---");
    let (fence, sep) = if starts_with_chars(&v, &plus) {
        (plus, '=')
    } else if starts_with_chars(&v, &dash) {
        (dash, ':')
    } else {
        return None;
    };
    let rest = subvec(&v, 3, v.len());
    assert(rest@ == content@.skip(3));
    let end = match find_chars(&rest, &fence, 0) {
        None => return None,
        Some(e) => e,
    };
    proof {
        crate::text::lemma_find_from_result(rest@, fence@, 0);
    }
    let fm = subvec(&rest, 0, end);
    assert(fm@ == rest@.take(end as int));
    let lines = split_on(&fm, '\n');
    let ghost ls = views(lines@);
    let mut i: usize = 0;
    assert(ls.skip(0) == ls);
    assert(frontmatter_title(content@) == title_from_lines(ls, sep));
    while i < lines.len()
        invariant
            i <= lines@.len(),
            ls == views(lines@),
            frontmatter_title(content@) == title_from_lines(ls, sep),
            title_from_lines(ls, sep) == title_from_lines(ls.skip(i as int), sep),
        decreases lines.len() - i,
    {
        assert(ls.skip(i as int)[0] == lines@[i as int]@);
        assert(ls.skip(i as int).drop_first() == ls.skip(i + 1));
        match title_line(&lines[i], sep) {
            Some(r) => {
                return r;
            },
            None => {},
        }
        i += 1;
    }
    assert(ls.skip(lines@.len() as int).len() == 0);
    None
}

// ---------------------------------------------------------------------------
// Terraform
// ---------------------------------------------------------------------------

/// Whether a line names one of the image keys followed by `=`.
pub open spec fn has_image_key(line: Seq<char>) -> bool {
    ||| contains_seq(line, "image ="@)
    ||| contains_seq(line, "image="@)
    ||| contains_seq(line, "image_uri ="@)
    ||| contains_seq(line, "image_uri="@)
    ||| contains_seq(line, "container_image ="@)
    ||| contains_seq(line, "container_image="@)
    ||| contains_seq(line, "docker_image ="@)
    ||| contains_seq(line, "docker_image="@)
}

/// The image a Terraform line assigns: the first double-quoted string after
/// the first `=`, when the line names an image key and the string is not
/// empty, not `$...` and not `var....`.
pub open spec fn image_of_line(line: Seq<char>) -> Option<Seq<char>> {
    if !has_image_key(line) {
        None
    } else {
        match find_from(line, "="@, 0) {
            None => None,
            Some(eq) => {
                let after = trim(line.skip(eq + 1));
                match find_from(after, "\""@, 0) {
                    None => None,
                    Some(open) => {
                        let after_open = after.skip(open + 1);
                        match find_from(after_open, "\""@, 0) {
                            None => None,
                            Some(close) => {
                                let image = after_open.take(close);
                                if image.len() > 0 && !starts_with(image, "$"@) && !starts_with(image, "var."@) {
                                    Some(image)
                                } else {
                                    None
                                }
                            },
                        }
                    },
                }
            },
        }
    }
}

/// The first occurrence of `p` in `v` at or after `start`, as a bound
/// within `v`.
fn find_in(v: &Vec<char>, p: &str, start: usize) -> (res: Option<usize>)
    ensures
        match res {
            Some(i) => find_from(v@, p@, start as int) == Some(i as int),
            None => find_from(v@, p@, start as int) is None,
        },
{
    let pv = chars_of(p);
    find_chars(v, &pv, start)
}

/// Extract the image reference from a Terraform line (see `image_of_line`).
pub fn extract_image_from_line(line: &str) -> (res: Option<String>)
    ensures
        match image_of_line(line@) {
            None => res is None,
            Some(img) => res matches Some(r) && r@ == img,
        },
{
    let v = chars_of(line);
    image_in(&v)
}

fn image_in(v: &Vec<char>) -> (res: Option<String>)
    ensures
        match image_of_line(v@) {
            None => res is None,
            Some(img) => res matches Some(r) && r@ == img,
        },
{
    let has_key = contains_str(v, "image =") || contains_str(v, "image=") || contains_str(v, "image_uri =")
        || contains_str(v, "image_uri=") || contains_str(v, "container_image =") || contains_str(
        v,
        "container_image=",
    ) || contains_str(v, "docker_image =") || contains_str(v, "docker_image=");
    if !has_key {
        return None;
    }
    let eq = match find_in(v, "=", 0) {
        None => return None,
        Some(e) => e,
    };
    proof {
        reveal_strlit("=");
        crate::text::lemma_find_from_result(v@, "="@, 0);
        assert(match_at(v@, "="@, eq as int));
        assert("="@.len() == 1);
        assert(v@.len() == v.len());
    }
    let tail = subvec(v, eq + 1, v.len());
    assert(tail@ == v@.skip(eq + 1));
    let (a, b) = trim_bounds(&tail, 0, tail.len());
    assert(tail@.subrange(0, tail@.len() as int) == tail@);
    let after = subvec(&tail, a, b);
    let open = match find_in(&after, "\"", 0) {
        None => return None,
        Some(o) => o,
    };
    proof {
        reveal_strlit("\"");
        crate::text::lemma_find_from_result(after@, "\""@, 0);
    }
    let after_open = subvec(&after, open + 1, after.len());
    assert(after_open@ == after@.skip(open + 1));
    let close = match find_in(&after_open, "\"", 0) {
        None => return None,
        Some(c) => c,
    };
    proof {
        crate::text::lemma_find_from_result(after_open@, "\""@, 0);
    }
    let image = subvec(&after_open, 0, close);
    assert(image@ == after_open@.take(close as int));
    let dollar = chars_of("$");
    let var = chars_of("var.");
    if image.len() > 0 && !starts_with_chars(&image, &dollar) && !starts_with_chars(&image, &var) {
        Some(string_of(&image))
    } else {
        None
    }
}

fn contains_str(v: &Vec<char>, p: &str) -> (res: bool)
    ensures
        res == contains_seq(v@, p@),
{
    let pv = chars_of(p);
    contains_chars(v, &pv)
}

/// The resource type and name of a `resource "type" "name"` line: the
/// first two double-quoted strings of a line that starts with `resource`.
pub open spec fn resource_of_line(t: Seq<char>) -> Option<(Seq<char>, Seq<char>)> {
    if !starts_with(t, "resource"@) {
        None
    } else {
        match find_from(t, "\""@, 0) {
            None => None,
            Some(o) => match find_from(t, "\""@, o + 1) {
                None => None,
                Some(c) => match find_from(t, "\""@, c + 1) {
                    None => None,
                    Some(n) => match find_from(t, "\""@, n + 1) {
                        None => None,
                        Some(m) => Some((t.subrange(o + 1, c), t.subrange(n + 1, m))),
                    },
                },
            },
        }
    }
}

/// The resources declared by the lines, in order.
pub open spec fn terraform_resources(lines: Seq<Seq<char>>) -> Seq<(Seq<char>, Seq<char>)>
    decreases lines.len(),
{
    if lines.len() == 0 {
        Seq::empty()
    } else {
        let init = terraform_resources(lines.drop_last());
        match resource_of_line(trim(lines.last())) {
            Some(r) => init.push(r),
            None => init,
        }
    }
}

/// The images referenced by the lines, in order, each with its line number
/// (counted from 1).
pub open spec fn terraform_images(lines: Seq<Seq<char>>) -> Seq<(Seq<char>, int)>
    decreases lines.len(),
{
    if lines.len() == 0 {
        Seq::empty()
    } else {
        let init = terraform_images(lines.drop_last());
        match image_of_line(trim(lines.last())) {
            Some(img) => init.push((img, lines.len() as int)),
            None => init,
        }
    }
}

/// A resource declared in a Terraform file.
#[derive(Debug, Clone, PartialEq, Eq)]
pub struct TerraformResource {
    pub resource_type: String,
    pub name: String,
}

/// An image referenced by a Terraform file, with its line number.
#[derive(Debug, Clone, PartialEq, Eq)]
pub struct ImageMention {
    pub image: String,
    pub line: i64,
}

/// What a scan of a Terraform file finds.
#[derive(Debug, Clone, PartialEq, Eq)]
pub struct TerraformScan {
    pub resources: Vec<TerraformResource>,
    pub images: Vec<ImageMention>,
}

pub open spec fn resource_views(v: Seq<TerraformResource>) -> Seq<(Seq<char>, Seq<char>)> {
    v.map_values(|r: TerraformResource| (r.resource_type@, r.name@))
}

pub open spec fn image_views(v: Seq<ImageMention>) -> Seq<(Seq<char>, int)> {
    v.map_values(|m: ImageMention| (m.image@, m.line as int))
}

/// The resource declared by a trimmed line (see `resource_of_line`).
fn resource_in(t: &Vec<char>) -> (res: Option<TerraformResource>)
    ensures
        match resource_of_line(t@) {
            None => res is None,
            Some(r) => res matches Some(x) && x.resource_type@ == r.0 && x.name@ == r.1,
        },
{
    proof {
        reveal_strlit("resource");
        reveal_strlit("\"");
    }
    let kw = chars_of("resource");
    if !starts_with_chars(t, &kw) {
        return None;
    }
    let o = match find_in(t, "\"", 0) {
        None => return None,
        Some(x) => x,
    };
    proof {
        crate::text::lemma_find_from_result(t@, "\""@, 0);
        assert(match_at(t@, "\""@, o as int));
        assert(t@.len() == t.len());
    }
    let c = match find_in(t, "\"", o + 1) {
        None => return None,
        Some(x) => x,
    };
    proof {
        crate::text::lemma_find_from_result(t@, "\""@, o + 1);
        assert(match_at(t@, "\""@, c as int));
        assert(t@.len() == t.len());
    }
    let n = match find_in(t, "\"", c + 1) {
        None => return None,
        Some(x) => x,
    };
    proof {
        crate::text::lemma_find_from_result(t@, "\""@, c + 1);
        assert(match_at(t@, "\""@, n as int));
        assert(t@.len() == t.len());
    }
    let m = match find_in(t, "\"", n + 1) {
        None => return None,
        Some(x) => x,
    };
    proof { crate::text::lemma_find_from_result(t@, "\""@, n + 1); }
    Some(TerraformResource { resource_type: string_of_range(t, o + 1, c), name: string_of_range(t, n + 1, m) })
}

/// Scan the lines of a Terraform file for the resources it declares and the
/// images it references (see `terraform_resources` and `terraform_images`).
pub fn scan_terraform(content: &str) -> (res: TerraformScan)
    requires
        split(content@, '\n').len() < i64::MAX,
    ensures
        resource_views(res.resources@) == terraform_resources(split(content@, '\n')),
        image_views(res.images@) == terraform_images(split(content@, '\n')),
{
    let v = chars_of(content);
    let lines = split_on(&v, '\n');
    let ghost ls = views(lines@);
    let mut resources: Vec<TerraformResource> = Vec::new();
    let mut images: Vec<ImageMention> = Vec::new();
    let mut i: usize = 0;
    let mut line_num: i64 = 0;
    assert(ls.take(0) == Seq::<Seq<char>>::empty());
    while i < lines.len()
        invariant
            i <= lines@.len(),
            ls == views(lines@),
            ls.len() < i64::MAX,
            line_num == i,
            resource_views(resources@) == terraform_resources(ls.take(i as int)),
            image_views(images@) == terraform_images(ls.take(i as int)),
        decreases lines.len() - i,
    {
        assert(ls.take(i + 1).drop_last() == ls.take(i as int));
        assert(ls.take(i + 1).last() == lines@[i as int]@);
        line_num += 1;
        let l = &lines[i];
        let (a, b) = trim_bounds(l, 0, l.len());
        assert(l@.subrange(0, l@.len() as int) == l@);
        let t = subvec(l, a, b);
        let ghost ri = resource_views(resources@);
        let ghost ii = image_views(images@);
        match image_in(&t) {
            Some(img) => {
                images.push(ImageMention { image: img, line: line_num });
                assert(image_views(images@) == ii.push((images@.last().image@, line_num as int)));
            },
            None => {},
        }
        match resource_in(&t) {
            Some(r) => {
                resources.push(r);
                assert(resource_views(resources@) == ri.push((resources@.last().resource_type@, resources@.last().name@)));
            },
            None => {},
        }
        i += 1;
    }
    assert(ls.take(lines@.len() as int) == ls);
    TerraformScan { resources, images }
}

// ---------------------------------------------------------------------------
// Deployments
// ---------------------------------------------------------------------------

/// The name of the last component, unless it is `..` or the root (`""`).
pub open spec fn file_name_of(cs: Seq<Seq<char>>) -> Seq<char> {
    if cs.len() > 0 && cs.last() != seq!['.', '.'] && cs.last() != crate::paths::root_marker() {
        cs.last()
    } else {
        Seq::empty()
    }
}

/// The name of the directory that holds the file at `path` (`""` when none).
pub open spec fn holding_dir_name(path: Seq<char>) -> Seq<char> {
    let cs = components(path);
    if cs.len() == 0 {
        Seq::empty()
    } else {
        file_name_of(cs.drop_last())
    }
}

/// An image name without its tag.
pub open spec fn image_base(image: Seq<char>) -> Seq<char> {
    split(image, ':')[0]
}

/// The last path segment of an image name without its tag.
pub open spec fn image_short_name(image: Seq<char>) -> Seq<char> {
    split(image_base(image), '/').last()
}

/// Whether an image reference deploys the container file at `path`: the
/// directory holding the file and the image name contain one another, or
/// the file is a docker-compose file and the image mentions `compose`.
pub open spec fn deploys(image: Seq<char>, path: Seq<char>) -> bool {
    let dir = holding_dir_name(path);
    let base = image_base(image);
    let short = image_short_name(image);
    ||| (dir.len() > 0 && (contains_seq(base, dir) || contains_seq(dir, short) || contains_seq(short, dir)))
    ||| (starts_with(file_name_of(components(path)), "docker-compose"@) && contains_seq(image, "compose"@))
}

/// Whether an entity is a containerised entity that the image deploys.
pub open spec fn is_deploy_target(e: Entity, image: Seq<char>) -> bool {
    &&& e.kind == EntityKind::Containerized
    &&& e.path matches Some(p) && deploys(image, p@)
}

/// The first entity that the image deploys.
pub open spec fn first_target(es: Seq<Entity>, image: Seq<char>) -> Option<int>
    decreases es.len(),
{
    if es.len() == 0 {
        None
    } else if is_deploy_target(es[0], image) {
        Some(0)
    } else {
        match first_target(es.drop_first(), image) {
            None => None,
            Some(j) => Some(j + 1),
        }
    }
}

/// For each image in order that deploys some entity, the pair of its index
/// and the index of the first entity it deploys.
pub open spec fn deploy_pairs(images: Seq<Seq<char>>, es: Seq<Entity>) -> Seq<(int, int)>
    decreases images.len(),
{
    if images.len() == 0 {
        Seq::empty()
    } else {
        let init = deploy_pairs(images.drop_last(), es);
        match first_target(es, images.last()) {
            Some(j) => init.push(((images.len() - 1) as int, j)),
            None => init,
        }
    }
}

pub open spec fn pair_views(v: Seq<(usize, usize)>) -> Seq<(int, int)> {
    v.map_values(|p: (usize, usize)| (p.0 as int, p.1 as int))
}

pub fn file_name_in_parts(cs: &Vec<Vec<char>>, upto: usize) -> (res: Vec<char>)
    requires
        upto <= cs.len(),
    ensures
        res@ == file_name_of(views(cs@).take(upto as int)),
{
    if upto == 0 {
        return Vec::new();
    }
    let last = &cs[upto - 1];
    let is_up = last.len() == 2 && last[0] == '.' && last[1] == '.';
    let is_root = last.len() == 1 && last[0] == '/';
    proof {
        assert(views(cs@).take(upto as int).last() == last@);
        if is_up {
            assert(last@ =~= seq!['.', '.']);
        } else if last@.len() == 2 {
            assert(last@[0] != seq!['.', '.'][0] || last@[1] != seq!['.', '.'][1]);
        } else {
            assert(last@.len() != seq!['.', '.'].len());
        }
        if is_root {
            assert(last@ =~= crate::paths::root_marker());
        } else if last@.len() == 1 {
            assert(last@[0] != crate::paths::root_marker()[0]);
        } else {
            assert(last@.len() != crate::paths::root_marker().len());
        }
    }
    if is_up || is_root {
        Vec::new()
    } else {
        crate::paths::copy_chars(last)
    }
}

/// Whether the image deploys the container file at `path` (see `deploys`).
fn deploys_exec(image: &Vec<char>, path: &str) -> (res: bool)
    ensures
        res == deploys(image@, path@),
{
    proof {
        reveal_strlit("docker-compose");
        reveal_strlit("compose");
    }
    let pv = chars_of(path);
    let cs = crate::paths::path_components(&pv);
    let dir = if cs.len() == 0 {
        Vec::new()
    } else {
        file_name_in_parts(&cs, cs.len() - 1)
    };
    proof {
        if cs@.len() > 0 {
            assert(views(cs@).take(cs@.len() - 1) == views(cs@).drop_last());
        }
    }
    assert(views(cs@).take(cs@.len() as int) == views(cs@));
    let file = file_name_in_parts(&cs, cs.len());
    let pieces = split_on(image, ':');
    proof { lemma_split_nonempty(image@, ':'); }
    let base = crate::paths::copy_chars(&pieces[0]);
    let parts = split_on(&base, '/');
    proof { lemma_split_nonempty(base@, '/'); }
    let short = crate::paths::copy_chars(&parts[parts.len() - 1]);
    let by_name = dir.len() > 0 && (contains_chars(&base, &dir) || contains_chars(&dir, &short) || contains_chars(&short, &dir));
    let compose_file = chars_of("docker-compose");
    let compose = chars_of("compose");
    by_name || (starts_with_chars(&file, &compose_file) && contains_chars(image, &compose))
}

/// The deployments that image references make: for each reference in
/// order, the first containerised entity (in order) whose file it deploys,
/// as a pair of the reference's index and the entity's index. A reference
/// that deploys nothing makes no pair.
pub fn deploy_targets(images: &Vec<String>, entities: &Vec<Entity>) -> (res: Vec<(usize, usize)>)
    ensures
        pair_views(res@) == deploy_pairs(crate::paths::string_views(images@), entities@),
{
    let ghost ims = crate::paths::string_views(images@);
    let mut res: Vec<(usize, usize)> = Vec::new();
    let mut i: usize = 0;
    assert(ims.take(0) == Seq::<Seq<char>>::empty());
    while i < images.len()
        invariant
            i <= images@.len(),
            ims == crate::paths::string_views(images@),
            pair_views(res@) == deploy_pairs(ims.take(i as int), entities@),
        decreases images.len() - i,
    {
        assert(ims.take(i + 1).drop_last() == ims.take(i as int));
        assert(ims.take(i + 1).last() == images@[i as int]@);
        let img = chars_of(images[i].as_str());
        let mut j: usize = 0;
        let mut found: Option<usize> = None;
        assert(img@ == ims[i as int]);
        assert(entities@.skip(0) == entities@);
        while j < entities.len()
            invariant_except_break
                found is None,
            invariant
                j <= entities@.len(),
                i < images@.len(),
                first_target(entities@, img@) == match first_target(entities@.skip(j as int), img@) {
                    None => None,
                    Some(k) => Some(k + j),
                },
            ensures
                first_target(entities@, img@) == match found {
                    None => None,
                    Some(k) => Some(k as int),
                },
                match found {
                    Some(k) => k < entities@.len(),
                    None => true,
                },
            decreases entities.len() - j,
        {
            let e = &entities[j];
            assert(entities@.skip(j as int)[0] == entities@[j as int]);
            assert(entities@.skip(j as int).drop_first() == entities@.skip(j + 1));
            let hit = match &e.kind {
                EntityKind::Containerized => match &e.path {
                    Some(p) => deploys_exec(&img, p.as_str()),
                    None => false,
                },
                _ => false,
            };
            if hit {
                found = Some(j);
                assert(first_target(entities@.skip(j as int), img@) == Some(0int));
                break;
            }
            j += 1;
        }
        let ghost before = pair_views(res@);
        match found {
            Some(k) => {
                res.push((i, k));
                assert(pair_views(res@) == before.push((i as int, k as int)));
            },
            None => {},
        }
        i += 1;
    }
    assert(ims.take(images@.len() as int) == ims);
    res
}

} // verus!
