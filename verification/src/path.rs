//! A lexical model of Unix paths: components, joining, file names and
//! extensions, specified after `std::path` on Unix.

use vstd::prelude::*;


verus! {

broadcast use crate::text::lemma_chars_deep_view;

/// A part of a path kept as a component: not empty and not `.`.
pub open spec fn keep_part(p: Seq<char>) -> Seq<Seq<char>> {
    if p.len() == 0 || p == seq!['.'] {
        Seq::empty()
    } else {
        seq![p]
    }
}

/// The named parts of `s` after the part being read (`cur`), split at `/`.
pub open spec fn parts_from(s: Seq<char>, cur: Seq<char>) -> Seq<Seq<char>>
    decreases s.len(),
{
    if s.len() == 0 {
        keep_part(cur)
    } else if s[0] == '/' {
        keep_part(cur) + parts_from(s.drop_first(), Seq::empty())
    } else {
        parts_from(s.drop_first(), cur.push(s[0]))
    }
}

/// The parts of `s` between separators, without empty parts and `.`.
pub open spec fn named_parts(s: Seq<char>) -> Seq<Seq<char>> {
    parts_from(s, Seq::empty())
}

/// `s` begins at the root directory.
pub open spec fn has_root(s: Seq<char>) -> bool {
    s.len() > 0 && s[0] == '/'
}

/// `s` is relative and begins with a `.` component (`.` or `./...`).
pub open spec fn leading_cur_dir(s: Seq<char>) -> bool {
    !has_root(s) && s.len() > 0 && s[0] == '.' && (s.len() == 1 || s[1] == '/')
}

/// The components of `s`, as `Path::components` yields them: the root is
/// written `/`, a leading current directory `.`, a parent directory `..`.
#[verifier::opaque]
pub open spec fn components(s: Seq<char>) -> Seq<Seq<char>> {
    if has_root(s) {
        seq![seq!['/']] + named_parts(s)
    } else if leading_cur_dir(s) {
        seq![seq!['.']] + named_parts(s)
    } else {
        named_parts(s)
    }
}

/// A component that names a file or directory (not root, `.` or `..`).
pub open spec fn is_normal(c: Seq<char>) -> bool {
    c != seq!['/'] && c != seq!['.'] && c != seq!['.', '.']
}

/// The last component when it is a name, as `Path::file_name`.
pub open spec fn file_name(s: Seq<char>) -> Option<Seq<char>> {
    let cs = components(s);
    if cs.len() > 0 && is_normal(cs.last()) {
        Some(cs.last())
    } else {
        None
    }
}

/// The components of the parent, as `Path::parent`.
pub open spec fn parent_components(s: Seq<char>) -> Option<Seq<Seq<char>>> {
    let cs = components(s);
    if cs.len() > 0 && cs.last() != seq!['/'] {
        Some(cs.drop_last())
    } else {
        None
    }
}

/// The index of the last `c` in `s`, or -1.
pub open spec fn last_index_of(s: Seq<char>, c: char) -> int
    decreases s.len(),
{
    if s.len() == 0 {
        -1
    } else if s.last() == c {
        s.len() - 1
    } else {
        last_index_of(s.drop_last(), c)
    }
}

/// The extension of a file name, as `Path::extension` computes it from
/// the file name: the text after the last `.`, unless that dot is the
/// first character or there is none.
pub open spec fn name_extension(name: Seq<char>) -> Option<Seq<char>> {
    let k = last_index_of(name, '.');
    if name == seq!['.', '.'] || k <= 0 {
        None
    } else {
        Some(name.subrange(k + 1, name.len() as int))
    }
}

/// The stem of a file name, as `Path::file_stem` computes it.
pub open spec fn name_stem(name: Seq<char>) -> Seq<char> {
    let k = last_index_of(name, '.');
    if name == seq!['.', '.'] || k <= 0 {
        name
    } else {
        name.subrange(0, k)
    }
}

/// The extension of the path `s`, as `Path::extension`.
pub open spec fn extension(s: Seq<char>) -> Option<Seq<char>> {
    match file_name(s) {
        Some(name) => name_extension(name),
        None => None,
    }
}

/// The text of `a` joined with `b`, as `Path::join`.
pub open spec fn join(a: Seq<char>, b: Seq<char>) -> Seq<char> {
    if has_root(b) {
        b
    } else if a.len() > 0 && a.last() != '/' {
        a + seq!['/'] + b
    } else {
        a + b
    }
}

/// The parts joined with one separator between each two.
pub open spec fn join_with_slash(parts: Seq<Seq<char>>) -> Seq<char>
    decreases parts.len(),
{
    if parts.len() == 0 {
        Seq::empty()
    } else if parts.len() == 1 {
        parts[0]
    } else {
        join_with_slash(parts.drop_last()) + seq!['/'] + parts.last()
    }
}

/// The canonical text of a path with components `cs`.
pub open spec fn render(cs: Seq<Seq<char>>) -> Seq<char> {
    if cs.len() > 0 && cs[0] == seq!['/'] {
        seq!['/'] + join_with_slash(cs.drop_first())
    } else {
        join_with_slash(cs)
    }
}

/// `base`'s components are a prefix of `p`'s, as `Path::starts_with`.
pub open spec fn path_starts_with(p: Seq<char>, base: Seq<char>) -> bool {
    components(base).is_prefix_of(components(p))
}

/// Some component of `p` is `..`.
pub open spec fn has_parent_dir(p: Seq<char>) -> bool {
    components(p).contains(seq!['.', '.'])
}

/// The path with its file name replaced, as `Path::with_file_name` on
/// the canonical text of the path.
pub open spec fn with_file_name(p: Seq<char>, name: Seq<char>) -> Seq<char> {
    match parent_components(p) {
        Some(parent) => join(render(parent), name),
        None => join(p, name),
    }
}

/// One step of reading a named part.
proof fn lemma_parts_step(s: Seq<char>, i: int, cur: Seq<char>)
    requires
        0 <= i < s.len(),
    ensures
        parts_from(s.subrange(i, s.len() as int), cur) == if s[i] == '/' {
            keep_part(cur) + parts_from(s.subrange(i + 1, s.len() as int), Seq::empty())
        } else {
            parts_from(s.subrange(i + 1, s.len() as int), cur.push(s[i]))
        },
{
    assert(s.subrange(i, s.len() as int).drop_first() =~= s.subrange(i + 1, s.len() as int));
}

/// The named parts of `s`.
pub fn named_parts_of(s: &Vec<char>) -> (r: Vec<Vec<char>>)
    ensures
        r.deep_view() == named_parts(s@),
{
    let mut out: Vec<Vec<char>> = Vec::new();
    let mut cur: Vec<char> = Vec::new();
    let mut i: usize = 0;
    assert(s@.subrange(0, s@.len() as int) =~= s@);
    while i < s.len()
        invariant
            i <= s@.len(),
            out.deep_view() + parts_from(s@.subrange(i as int, s@.len() as int), cur@)
                == named_parts(s@),
        decreases s.len() - i,
    {
        proof {
            lemma_parts_step(s@, i as int, cur@);
        }
        if s[i] == '/' {
            if cur.len() > 0 && !(cur.len() == 1 && cur[0] == '.') {
                let ghost before = out.deep_view();
                let ghost c = cur@;
                out.push(cur);
                proof {
                    assert(out.deep_view() =~= before.push(c));
                    assert(keep_part(cur@) == seq![cur@]);
                    assert(before + (seq![cur@] + parts_from(s@.subrange(i + 1, s@.len() as int), Seq::empty()))
                        =~= before.push(cur@) + parts_from(s@.subrange(i + 1, s@.len() as int), Seq::empty()));
                }
            } else {
                proof {
                    if cur@.len() == 1 {
                        assert(cur@ =~= seq!['.']);
                    }
                    assert(keep_part(cur@) =~= Seq::<Seq<char>>::empty());
                    assert(out.deep_view() + (keep_part(cur@) + parts_from(s@.subrange(i + 1, s@.len() as int), Seq::empty()))
                        =~= out.deep_view() + parts_from(s@.subrange(i + 1, s@.len() as int), Seq::empty()));
                }
            }
            cur = Vec::new();
        } else {
            cur.push(s[i]);
        }
        i = i + 1;
    }
    proof {
        assert(s@.subrange(i as int, s@.len() as int) =~= Seq::<char>::empty());
    }
    if cur.len() > 0 && !(cur.len() == 1 && cur[0] == '.') {
        let ghost before = out.deep_view();
        let ghost c = cur@;
        out.push(cur);
        proof {
            assert(out.deep_view() =~= before.push(c));
            assert(before + keep_part(c) =~= before.push(c));
        }
    } else {
        proof {
            if cur@.len() == 1 {
                assert(cur@ =~= seq!['.']);
            }
            assert(out.deep_view() + keep_part(cur@) =~= out.deep_view());
        }
    }
    out
}

/// The components of the path `s`, as `Path::components`.
pub fn components_of(s: &Vec<char>) -> (r: Vec<Vec<char>>)
    ensures
        r.deep_view() == components(s@),
{
    reveal(components);
    let parts = named_parts_of(s);
    let rooted = s.len() > 0 && s[0] == '/';
    let cur_lead = !rooted && s.len() > 0 && s[0] == '.' && (s.len() == 1 || s[1] == '/');
    if rooted || cur_lead {
        let mut first: Vec<char> = Vec::new();
        first.push(if rooted { '/' } else { '.' });
        let mut r: Vec<Vec<char>> = Vec::new();
        let ghost f = first@;
        r.push(first);
        assert(r.deep_view() =~= seq![f]);
        assert(parts.deep_view().subrange(0, 0) =~= Seq::<Seq<char>>::empty());
        let mut i: usize = 0;
        while i < parts.len()
            invariant
                i <= parts@.len(),
                r.deep_view() == seq![f] + parts.deep_view().subrange(0, i as int),
            decreases parts.len() - i,
        {
            let ghost before = r.deep_view();
            r.push(parts[i].clone());
            proof {
                assert(r.deep_view() =~= before.push(parts.deep_view()[i as int]));
                assert(parts.deep_view().subrange(0, i + 1) =~= parts.deep_view().subrange(0, i as int).push(parts.deep_view()[i as int]));
            }
            i = i + 1;
        }
        proof {
            assert(parts.deep_view().subrange(0, parts@.len() as int) =~= parts.deep_view());
            if rooted {
                assert(f =~= seq!['/']);
            } else {
                assert(f =~= seq!['.']);
            }
        }
        r
    } else {
        parts
    }
}


/// The path `a` joined with `b`, as `Path::join`.
pub fn join_chars(a: &Vec<char>, b: &Vec<char>) -> (r: Vec<char>)
    ensures
        r@ == join(a@, b@),
{
    if b.len() > 0 && b[0] == '/' {
        b.clone()
    } else if a.len() > 0 && a[a.len() - 1] != '/' {
        let mut t = a.clone();
        t.push('/');
        let r = crate::text::concat_chars(&t, b);
        assert(t@ == a@ + seq!['/']);
        r
    } else {
        crate::text::concat_chars(a, b)
    }
}

/// The index of the last `c` in `s`, if any.
pub fn last_index_of_char(s: &Vec<char>, c: char) -> (r: Option<usize>)
    ensures
        match r {
            Some(k) => k == last_index_of(s@, c) && k < s@.len(),
            None => last_index_of(s@, c) == -1,
        },
{
    let mut k: usize = s.len();
    assert(s@.subrange(0, s@.len() as int) =~= s@);
    while k > 0
        invariant
            k <= s@.len(),
            last_index_of(s@, c) == last_index_of(s@.subrange(0, k as int), c),
        decreases k,
    {
        proof {
            assert(s@.subrange(0, k as int).drop_last() =~= s@.subrange(0, k - 1));
        }
        if s[k - 1] == c {
            return Some(k - 1);
        }
        k = k - 1;
    }
    None
}

/// The file name of the path `s`, as `Path::file_name`.
pub fn file_name_of(s: &Vec<char>) -> (r: Option<Vec<char>>)
    ensures
        match r {
            Some(n) => file_name(s@) == Some(n@),
            None => file_name(s@) is None,
        },
{
    let cs = components_of(s);
    if cs.len() == 0 {
        return None;
    }
    let last = cs[cs.len() - 1].clone();
    assert(cs.deep_view().last() == last@);
    let is_root = last.len() == 1 && last[0] == '/';
    let is_cur = last.len() == 1 && last[0] == '.';
    let is_parent = last.len() == 2 && last[0] == '.' && last[1] == '.';
    proof {
        if last@.len() == 1 {
            if last@[0] == '/' {
                assert(last@ =~= seq!['/']);
            }
            if last@[0] == '.' {
                assert(last@ =~= seq!['.']);
            }
        }
        if last@.len() == 2 && last@[0] == '.' && last@[1] == '.' {
            assert(last@ =~= seq!['.', '.']);
        }
    }
    if is_root || is_cur || is_parent {
        None
    } else {
        Some(last)
    }
}

/// The extension of a file name, as `Path::extension` reads it.
pub fn name_extension_of(name: &Vec<char>) -> (r: Option<Vec<char>>)
    ensures
        match r {
            Some(e) => name_extension(name@) == Some(e@),
            None => name_extension(name@) is None,
        },
{
    let is_dotdot = name.len() == 2 && name[0] == '.' && name[1] == '.';
    proof {
        if name@.len() == 2 && name@[0] == '.' && name@[1] == '.' {
            assert(name@ =~= seq!['.', '.']);
        }
    }
    match last_index_of_char(name, '.') {
        Some(k) => {
            if is_dotdot || k == 0 {
                None
            } else {
                Some(crate::text::sub_chars(name, k + 1, name.len()))
            }
        },
        None => None,
    }
}

/// The stem of a file name, as `Path::file_stem` reads it.
pub fn name_stem_of(name: &Vec<char>) -> (r: Vec<char>)
    ensures
        r@ == name_stem(name@),
{
    let is_dotdot = name.len() == 2 && name[0] == '.' && name[1] == '.';
    proof {
        if name@.len() == 2 && name@[0] == '.' && name@[1] == '.' {
            assert(name@ =~= seq!['.', '.']);
        }
    }
    match last_index_of_char(name, '.') {
        Some(k) => {
            if is_dotdot || k == 0 {
                name.clone()
            } else {
                crate::text::sub_chars(name, 0, k)
            }
        },
        None => name.clone(),
    }
}

/// The extension of the path `s`, as `Path::extension`.
pub fn extension_of(s: &Vec<char>) -> (r: Option<Vec<char>>)
    ensures
        match r {
            Some(e) => extension(s@) == Some(e@),
            None => extension(s@) is None,
        },
{
    match file_name_of(s) {
        Some(name) => name_extension_of(&name),
        None => None,
    }
}

/// The parts joined with `/` between each two.
pub fn join_with_slash_of(parts: &Vec<Vec<char>>) -> (r: Vec<char>)
    ensures
        r@ == join_with_slash(parts.deep_view()),
{
    let mut r: Vec<char> = Vec::new();
    let mut i: usize = 0;
    while i < parts.len()
        invariant
            i <= parts@.len(),
            r@ == join_with_slash(parts.deep_view().subrange(0, i as int)),
        decreases parts.len() - i,
    {
        proof {
            let pre = parts.deep_view().subrange(0, i + 1);
            assert(pre.drop_last() =~= parts.deep_view().subrange(0, i as int));
            assert(pre.last() == parts@[i as int]@);
        }
        if i > 0 {
            r.push('/');
        }
        r = crate::text::concat_chars(&r, &parts[i]);
        proof {
            if i == 0 {
                assert(parts.deep_view().subrange(0, 0) =~= Seq::<Seq<char>>::empty());
                assert(r@ =~= parts@[0]@);
            }
        }
        i = i + 1;
    }
    assert(parts.deep_view().subrange(0, parts@.len() as int) =~= parts.deep_view());
    r
}

/// The canonical text of a path with components `cs`.
pub fn render_of(cs: &Vec<Vec<char>>) -> (r: Vec<char>)
    ensures
        r@ == render(cs.deep_view()),
{
    if cs.len() > 0 && cs[0].len() == 1 && cs[0][0] == '/' {
        assert(cs.deep_view()[0] =~= seq!['/']);
        let mut rest: Vec<Vec<char>> = Vec::new();
        let mut i: usize = 1;
        while i < cs.len()
            invariant
                1 <= i <= cs@.len(),
                rest.deep_view() == cs.deep_view().subrange(1, i as int),
            decreases cs.len() - i,
        {
            let ghost before = rest.deep_view();
            rest.push(cs[i].clone());
            proof {
                assert(rest.deep_view() =~= before.push(cs.deep_view()[i as int]));
                assert(cs.deep_view().subrange(1, i + 1) =~= cs.deep_view().subrange(1, i as int).push(cs.deep_view()[i as int]));
            }
            i = i + 1;
        }
        assert(cs.deep_view().subrange(1, cs@.len() as int) =~= cs.deep_view().drop_first());
        let mut root: Vec<char> = Vec::new();
        root.push('/');
        let joined = join_with_slash_of(&rest);
        let r = crate::text::concat_chars(&root, &joined);
        assert(root@ =~= seq!['/']);
        r
    } else {
        proof {
            if cs@.len() > 0 && cs@[0]@.len() == 1 && cs@[0]@[0] == '/' {
                assert(false);
            }
            if cs@.len() > 0 && cs.deep_view()[0] == seq!['/'] {
                assert(cs.deep_view()[0].len() == 1);
            }
        }
        join_with_slash_of(cs)
    }
}

/// Whether two component lists are equal.
pub fn components_equal(a: &Vec<Vec<char>>, b: &Vec<Vec<char>>) -> (r: bool)
    ensures
        r == (a.deep_view() == b.deep_view()),
{
    if a.len() != b.len() {
        assert(a.deep_view().len() != b.deep_view().len());
        return false;
    }
    let mut i: usize = 0;
    while i < a.len()
        invariant
            a@.len() == b@.len(),
            i <= a@.len(),
            forall|k: int| 0 <= k < i ==> a.deep_view()[k] == b.deep_view()[k],
        decreases a.len() - i,
    {
        if a[i].len() != b[i].len() {
            assert(a.deep_view()[i as int] != b.deep_view()[i as int]);
            return false;
        }
        if !crate::text::block_equals(&a[i], 0, &b[i]) {
            assert(a@[i as int]@.subrange(0, b@[i as int]@.len() as int) =~= a@[i as int]@);
            assert(a.deep_view()[i as int] != b.deep_view()[i as int]);
            return false;
        }
        assert(a@[i as int]@.subrange(0, b@[i as int]@.len() as int) =~= a@[i as int]@);
        i = i + 1;
    }
    assert(a.deep_view() =~= b.deep_view());
    true
}

/// Whether `base`'s components are a prefix of `p`'s, as `Path::starts_with`.
pub fn path_starts_with_of(p: &Vec<char>, base: &Vec<char>) -> (r: bool)
    ensures
        r == path_starts_with(p@, base@),
{
    let pc = components_of(p);
    let bc = components_of(base);
    if bc.len() > pc.len() {
        return false;
    }
    let mut i: usize = 0;
    while i < bc.len()
        invariant
            bc@.len() <= pc@.len(),
            pc.deep_view() == components(p@),
            bc.deep_view() == components(base@),
            i <= bc@.len(),
            forall|k: int| 0 <= k < i ==> bc.deep_view()[k] == pc.deep_view()[k],
        decreases bc.len() - i,
    {
        let same = bc[i].len() == pc[i].len() && crate::text::block_equals(&pc[i], 0, &bc[i]);
        proof {
            if bc@[i as int]@.len() == pc@[i as int]@.len() {
                assert(pc@[i as int]@.subrange(0, bc@[i as int]@.len() as int) =~= pc@[i as int]@);
            }
        }
        if !same {
            assert(bc.deep_view()[i as int] != pc.deep_view()[i as int]);
            assert(pc.deep_view().subrange(0, bc.deep_view().len() as int)[i as int] != bc.deep_view()[i as int]);
            assert(!bc.deep_view().is_prefix_of(pc.deep_view()));
            return false;
        }
        i = i + 1;
    }
    assert(bc.deep_view().is_prefix_of(pc.deep_view()));
    true
}

/// Whether some component of `p` is `..`.
pub fn has_parent_dir_of(p: &Vec<char>) -> (r: bool)
    ensures
        r == has_parent_dir(p@),
{
    let cs = components_of(p);
    let mut i: usize = 0;
    while i < cs.len()
        invariant
            i <= cs@.len(),
            cs.deep_view() == components(p@),
            forall|k: int| 0 <= k < i ==> cs.deep_view()[k] != seq!['.', '.'],
        decreases cs.len() - i,
    {
        if cs[i].len() == 2 && cs[i][0] == '.' && cs[i][1] == '.' {
            assert(cs.deep_view()[i as int] =~= seq!['.', '.']);
            assert(cs.deep_view().contains(seq!['.', '.']));
            return true;
        }
        proof {
            if cs.deep_view()[i as int] == seq!['.', '.'] {
                assert(cs@[i as int]@.len() == 2);
            }
        }
        i = i + 1;
    }
    false
}

/// The path with its file name replaced, as `Path::with_file_name`.
pub fn with_file_name_of(p: &Vec<char>, name: &Vec<char>) -> (r: Vec<char>)
    ensures
        r@ == with_file_name(p@, name@),
{
    let cs = components_of(p);
    if cs.len() > 0 && !(cs[cs.len() - 1].len() == 1 && cs[cs.len() - 1][0] == '/') {
        proof {
            if cs.deep_view().last() == seq!['/'] {
                assert(cs@[cs@.len() - 1]@.len() == 1);
            }
        }
        let mut parent: Vec<Vec<char>> = Vec::new();
        let mut i: usize = 0;
        while i + 1 < cs.len()
            invariant
                i + 1 <= cs@.len(),
                parent.deep_view() == cs.deep_view().subrange(0, i as int),
            decreases cs.len() - i,
        {
            let ghost before = parent.deep_view();
            parent.push(cs[i].clone());
            proof {
                assert(parent.deep_view() =~= before.push(cs.deep_view()[i as int]));
                assert(cs.deep_view().subrange(0, i + 1) =~= cs.deep_view().subrange(0, i as int).push(cs.deep_view()[i as int]));
            }
            i = i + 1;
        }
        assert(parent.deep_view() =~= cs.deep_view().drop_last());
        let text = render_of(&parent);
        join_chars(&text, name)
    } else {
        proof {
            if cs@.len() > 0 {
                assert(cs.deep_view().last() =~= seq!['/']);
            }
        }
        join_chars(p, name)
    }
}


/// Lexicographic comparison of texts by character: -1, 0 or 1.
pub open spec fn text_order(a: Seq<char>, b: Seq<char>) -> int
    decreases a.len(),
{
    if a.len() == 0 {
        if b.len() == 0 {
            0
        } else {
            -1
        }
    } else if b.len() == 0 {
        1
    } else if a[0] < b[0] {
        -1
    } else if a[0] > b[0] {
        1
    } else {
        text_order(a.drop_first(), b.drop_first())
    }
}

/// The kind of a component in the order of `std::path::Component`:
/// root, current directory, parent directory, then names.
pub open spec fn component_rank(c: Seq<char>) -> int {
    if c == seq!['/'] {
        0
    } else if c == seq!['.'] {
        1
    } else if c == seq!['.', '.'] {
        2
    } else {
        3
    }
}

/// Comparison of components: by kind, then names by text.
pub open spec fn component_order(a: Seq<char>, b: Seq<char>) -> int {
    if component_rank(a) < component_rank(b) {
        -1
    } else if component_rank(a) > component_rank(b) {
        1
    } else if component_rank(a) == 3 {
        text_order(a, b)
    } else {
        0
    }
}

/// Lexicographic comparison of component lists, as `Ord for Path`.
pub open spec fn path_order(a: Seq<Seq<char>>, b: Seq<Seq<char>>) -> int
    decreases a.len(),
{
    if a.len() == 0 {
        if b.len() == 0 {
            0
        } else {
            -1
        }
    } else if b.len() == 0 {
        1
    } else if component_order(a[0], b[0]) != 0 {
        component_order(a[0], b[0])
    } else {
        path_order(a.drop_first(), b.drop_first())
    }
}

/// Text comparison is antisymmetric, and 0 exactly on equal texts.
pub proof fn lemma_text_order_basic(a: Seq<char>, b: Seq<char>)
    ensures
        text_order(a, b) == -text_order(b, a),
        (text_order(a, b) == 0) == (a == b),
        -1 <= text_order(a, b) <= 1,
    decreases a.len(),
{
    if a.len() > 0 && b.len() > 0 {
        lemma_text_order_basic(a.drop_first(), b.drop_first());
        if a[0] == b[0] {
            if a.drop_first() == b.drop_first() {
                assert(a =~= seq![a[0]] + a.drop_first());
                assert(b =~= seq![b[0]] + b.drop_first());
            }
        }
    } else if a.len() == 0 && b.len() == 0 {
        assert(a =~= b);
    }
}

/// Text comparison is transitive.
pub proof fn lemma_text_order_trans(a: Seq<char>, b: Seq<char>, c: Seq<char>)
    requires
        text_order(a, b) < 0,
        text_order(b, c) < 0,
    ensures
        text_order(a, c) < 0,
    decreases a.len(),
{
    if a.len() > 0 && b.len() > 0 && c.len() > 0 {
        if a[0] == b[0] && b[0] == c[0] {
            lemma_text_order_trans(a.drop_first(), b.drop_first(), c.drop_first());
        }
    }
}

/// Component comparison is antisymmetric, and 0 exactly on equal components.
pub proof fn lemma_component_order_basic(a: Seq<char>, b: Seq<char>)
    ensures
        component_order(a, b) == -component_order(b, a),
        (component_order(a, b) == 0) == (a == b),
        -1 <= component_order(a, b) <= 1,
{
    lemma_text_order_basic(a, b);
}

/// Component comparison is transitive.
pub proof fn lemma_component_order_trans(a: Seq<char>, b: Seq<char>, c: Seq<char>)
    requires
        component_order(a, b) < 0,
        component_order(b, c) < 0,
    ensures
        component_order(a, c) < 0,
{
    if component_rank(a) == 3 && component_rank(b) == 3 && component_rank(c) == 3 {
        lemma_text_order_trans(a, b, c);
    }
}

/// Path comparison is antisymmetric, and 0 exactly on equal component lists.
pub proof fn lemma_path_order_basic(a: Seq<Seq<char>>, b: Seq<Seq<char>>)
    ensures
        path_order(a, b) == -path_order(b, a),
        (path_order(a, b) == 0) == (a == b),
        -1 <= path_order(a, b) <= 1,
    decreases a.len(),
{
    if a.len() > 0 && b.len() > 0 {
        lemma_component_order_basic(a[0], b[0]);
        lemma_path_order_basic(a.drop_first(), b.drop_first());
        if component_order(a[0], b[0]) == 0 && a.drop_first() == b.drop_first() {
            assert(a =~= seq![a[0]] + a.drop_first());
            assert(b =~= seq![b[0]] + b.drop_first());
        }
    } else if a.len() == 0 && b.len() == 0 {
        assert(a =~= b);
    }
}

/// Path comparison is transitive.
pub proof fn lemma_path_order_trans(a: Seq<Seq<char>>, b: Seq<Seq<char>>, c: Seq<Seq<char>>)
    requires
        path_order(a, b) < 0,
        path_order(b, c) < 0,
    ensures
        path_order(a, c) < 0,
    decreases a.len(),
{
    if a.len() > 0 && b.len() > 0 && c.len() > 0 {
        lemma_component_order_basic(a[0], b[0]);
        lemma_component_order_basic(b[0], c[0]);
        lemma_component_order_basic(a[0], c[0]);
        if component_order(a[0], b[0]) < 0 && component_order(b[0], c[0]) < 0 {
            lemma_component_order_trans(a[0], b[0], c[0]);
        } else if component_order(a[0], b[0]) == 0 && component_order(b[0], c[0]) == 0 {
            lemma_path_order_trans(a.drop_first(), b.drop_first(), c.drop_first());
        }
    }
}

/// The rank of a component.
fn component_rank_of(c: &Vec<char>) -> (r: u8)
    ensures
        r == component_rank(c@),
{
    proof {
        if c@.len() == 1 && c@[0] == '/' {
            assert(c@ =~= seq!['/']);
        }
        if c@.len() == 1 && c@[0] == '.' {
            assert(c@ =~= seq!['.']);
        }
        if c@.len() == 2 && c@[0] == '.' && c@[1] == '.' {
            assert(c@ =~= seq!['.', '.']);
        }
    }
    if c.len() == 1 && c[0] == '/' {
        0
    } else if c.len() == 1 && c[0] == '.' {
        1
    } else if c.len() == 2 && c[0] == '.' && c[1] == '.' {
        2
    } else {
        3
    }
}

/// Comparison of texts by character.
fn text_order_of(a: &Vec<char>, b: &Vec<char>) -> (r: i8)
    ensures
        r as int == text_order(a@, b@),
{
    let mut i: usize = 0;
    proof {
        assert(a@.subrange(0, a@.len() as int) =~= a@);
        assert(b@.subrange(0, b@.len() as int) =~= b@);
    }
    while i < a.len() && i < b.len() && a[i] == b[i]
        invariant
            i <= a@.len(),
            i <= b@.len(),
            text_order(a@, b@) == text_order(a@.subrange(i as int, a@.len() as int), b@.subrange(i as int, b@.len() as int)),
        decreases a.len() - i,
    {
        proof {
            let sa = a@.subrange(i as int, a@.len() as int);
            let sb = b@.subrange(i as int, b@.len() as int);
            assert(sa.drop_first() =~= a@.subrange(i + 1, a@.len() as int));
            assert(sb.drop_first() =~= b@.subrange(i + 1, b@.len() as int));
        }
        i = i + 1;
    }
    proof {
        assert(a@.subrange(0, a@.len() as int) =~= a@);
        assert(b@.subrange(0, b@.len() as int) =~= b@);
    }
    if i == a.len() {
        if i == b.len() {
            0
        } else {
            -1
        }
    } else if i == b.len() {
        1
    } else if a[i] < b[i] {
        -1
    } else {
        1
    }
}

/// Comparison of two paths given by their components, as `Ord for Path`.
pub fn path_order_of(a: &Vec<Vec<char>>, b: &Vec<Vec<char>>) -> (r: i8)
    ensures
        r as int == path_order(a.deep_view(), b.deep_view()),
{
    let mut i: usize = 0;
    proof {
        assert(a.deep_view().subrange(0, a@.len() as int) =~= a.deep_view());
        assert(b.deep_view().subrange(0, b@.len() as int) =~= b.deep_view());
    }
    while i < a.len() && i < b.len()
        invariant
            i <= a@.len(),
            i <= b@.len(),
            path_order(a.deep_view(), b.deep_view()) == path_order(
                a.deep_view().subrange(i as int, a@.len() as int),
                b.deep_view().subrange(i as int, b@.len() as int),
            ),
        decreases a.len() - i,
    {
        let ra = component_rank_of(&a[i]);
        let rb = component_rank_of(&b[i]);
        let c: i8 = if ra < rb {
            -1
        } else if ra > rb {
            1
        } else if ra == 3 {
            text_order_of(&a[i], &b[i])
        } else {
            0
        };
        proof {
            let sa = a.deep_view().subrange(i as int, a@.len() as int);
            let sb = b.deep_view().subrange(i as int, b@.len() as int);
            assert(sa[0] == a@[i as int]@);
            assert(sb[0] == b@[i as int]@);
            assert(c as int == component_order(sa[0], sb[0]));
            assert(sa.drop_first() =~= a.deep_view().subrange(i + 1, a@.len() as int));
            assert(sb.drop_first() =~= b.deep_view().subrange(i + 1, b@.len() as int));
        }
        if c != 0 {
            return c;
        }
        i = i + 1;
    }
    if i == a.len() {
        if i == b.len() {
            0
        } else {
            -1
        }
    } else {
        1
    }
}

} // verus!
