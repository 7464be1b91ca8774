//! Reading the text of a triangle mesh file: one record per line, fields
//! separated by whitespace. `v`, `vt` and `vn` records carry the numbers of a
//! position, a texture coordinate and a normal, which the caller reads as
//! reals; `f` records list the corners of a face as `p`, `p/t` or `p/t/n`
//! with one-based indices, which are read here.

use vstd::prelude::*;

verus! {

// ASCII codes of the characters that the format gives a meaning.
pub const SPACE: u8 = 32;
pub const TAB: u8 = 9;
pub const RETURN: u8 = 13;
pub const PLUS: u8 = 43;
pub const SLASH: u8 = 47;
pub const DIGIT_ZERO: u8 = 48;
pub const DIGIT_NINE: u8 = 57;
pub const LETTER_F: u8 = 102;
pub const LETTER_N: u8 = 110;
pub const LETTER_T: u8 = 116;
pub const LETTER_V: u8 = 118;

/// The byte views of a list of byte vectors.
pub open spec fn views(v: Seq<Vec<u8>>) -> Seq<Seq<u8>> {
    v.map_values(|x: Vec<u8>| x@)
}

/// The views of a list of index vectors.
pub open spec fn views_usize(v: Seq<Vec<usize>>) -> Seq<Seq<usize>> {
    v.map_values(|x: Vec<usize>| x@)
}

/// ASCII whitespace: space, and tab through return (tab, line feed,
/// vertical tab, form feed, return).
pub open spec fn is_space(b: u8) -> bool {
    b == SPACE || (TAB <= b && b <= RETURN)
}

/// Scanning `s` for fields: the fields completed so far and the one in progress.
pub open spec fn scan_fields(s: Seq<u8>) -> (Seq<Seq<u8>>, Seq<u8>)
    decreases s.len(),
{
    if s.len() == 0 {
        (Seq::empty(), Seq::empty())
    } else {
        let prev = scan_fields(s.drop_last());
        if !is_space(s.last()) {
            (prev.0, prev.1.push(s.last()))
        } else if prev.1.len() > 0 {
            (prev.0.push(prev.1), Seq::empty())
        } else {
            prev
        }
    }
}

/// The maximal runs of non-whitespace bytes of `s`, in order.
pub open spec fn fields(s: Seq<u8>) -> Seq<Seq<u8>> {
    let st = scan_fields(s);
    if st.1.len() > 0 {
        st.0.push(st.1)
    } else {
        st.0
    }
}

/// Scanning `s` for parts cut at `sep`: the parts completed so far and the
/// one in progress.
pub open spec fn scan_parts(s: Seq<u8>, sep: u8) -> (Seq<Seq<u8>>, Seq<u8>)
    decreases s.len(),
{
    if s.len() == 0 {
        (Seq::empty(), Seq::empty())
    } else {
        let prev = scan_parts(s.drop_last(), sep);
        if s.last() == sep {
            (prev.0.push(prev.1), Seq::empty())
        } else {
            (prev.0, prev.1.push(s.last()))
        }
    }
}

/// The pieces of `s` between occurrences of `sep`, empty pieces included:
/// one more than the number of separators.
pub open spec fn parts(s: Seq<u8>, sep: u8) -> Seq<Seq<u8>> {
    let st = scan_parts(s, sep);
    st.0.push(st.1)
}

/// Splits a line into its whitespace-separated fields.
pub fn split_fields(line: &Vec<u8>) -> (r: Vec<Vec<u8>>)
    ensures
        views(r@) == fields(line@),
{
    let mut done: Vec<Vec<u8>> = Vec::new();
    let mut cur: Vec<u8> = Vec::new();
    let mut i: usize = 0;
    while i < line.len()
        invariant
            i <= line@.len(),
            (views(done@), cur@) == scan_fields(line@.take(i as int)),
        decreases line@.len() - i,
    {
        let b = line[i];
        proof {
            assert(line@.take(i + 1).drop_last() =~= line@.take(i as int));
        }
        if !(b == SPACE || (TAB <= b && b <= RETURN)) {
            cur.push(b);
        } else if cur.len() > 0 {
            let ghost old_done = done@;
            done.push(cur);
            cur = Vec::new();
            proof {
                assert(views(done@) =~= views(old_done).push(done@.last()@));
                assert(cur@ =~= Seq::<u8>::empty());
            }
        }
        i += 1;
    }
    proof {
        assert(line@.take(line@.len() as int) =~= line@);
    }
    if cur.len() > 0 {
        let ghost old_done = done@;
        done.push(cur);
        proof {
            assert(views(done@) =~= views(old_done).push(done@.last()@));
        }
    }
    done
}

/// Cuts a field into its pieces between occurrences of `sep`.
pub fn split_parts(field: &Vec<u8>, sep: u8) -> (r: Vec<Vec<u8>>)
    ensures
        views(r@) == parts(field@, sep),
{
    let mut done: Vec<Vec<u8>> = Vec::new();
    let mut cur: Vec<u8> = Vec::new();
    let mut i: usize = 0;
    while i < field.len()
        invariant
            i <= field@.len(),
            (views(done@), cur@) == scan_parts(field@.take(i as int), sep),
        decreases field@.len() - i,
    {
        let b = field[i];
        proof {
            assert(field@.take(i + 1).drop_last() =~= field@.take(i as int));
        }
        if b == sep {
            let ghost old_done = done@;
            done.push(cur);
            cur = Vec::new();
            proof {
                assert(views(done@) =~= views(old_done).push(done@.last()@));
                assert(cur@ =~= Seq::<u8>::empty());
            }
        } else {
            cur.push(b);
        }
        i += 1;
    }
    proof {
        assert(field@.take(field@.len() as int) =~= field@);
    }
    let ghost old_done = done@;
    done.push(cur);
    proof {
        assert(views(done@) =~= views(old_done).push(done@.last()@));
    }
    done
}


/// An ASCII decimal digit.
pub open spec fn is_digit(b: u8) -> bool {
    DIGIT_ZERO <= b && b <= DIGIT_NINE
}

/// Every byte of `s` is a decimal digit.
pub open spec fn all_digits(s: Seq<u8>) -> bool {
    forall|i: int| 0 <= i < s.len() ==> #[trigger] is_digit(s[i])
}

/// The value of a string of decimal digits, most significant first.
pub open spec fn digits_value(s: Seq<u8>) -> nat
    decreases s.len(),
{
    if s.len() == 0 {
        0
    } else {
        digits_value(s.drop_last()) * 10 + (s.last() - DIGIT_ZERO) as nat
    }
}

/// The digits of an unsigned decimal field: all of it, or all but a leading `+`.
pub open spec fn unsigned_digits(s: Seq<u8>) -> Seq<u8> {
    if s.len() > 0 && s[0] == PLUS {
        s.drop_first()
    } else {
        s
    }
}

/// The number that an unsigned decimal field states: an optional `+` and
/// then one or more digits; `None` for any other field.
pub open spec fn decimal(s: Seq<u8>) -> Option<nat> {
    let d = unsigned_digits(s);
    if d.len() > 0 && all_digits(d) {
        Some(digits_value(d))
    } else {
        None
    }
}

/// The zero-based index that a one-based index field names; `usize::MAX`,
/// which names no element, for a field that is not a number from 1 to
/// `usize::MAX`.
pub open spec fn obj_index(s: Seq<u8>) -> usize {
    match decimal(s) {
        Some(n) => if 1 <= n <= usize::MAX {
            (n - 1) as usize
        } else {
            usize::MAX
        },
        None => usize::MAX,
    }
}

/// Reads a one-based index field as a zero-based index (see `obj_index`).
pub fn parse_index(field: &Vec<u8>) -> (r: usize)
    ensures
        r == obj_index(field@),
{
    let ghost s = field@;
    let start: usize = if field.len() > 0 && field[0] == PLUS {
        1
    } else {
        0
    };
    let ghost d = unsigned_digits(s);
    proof {
        assert(d =~= s.subrange(start as int, s.len() as int));
    }
    if start >= field.len() {
        return usize::MAX;
    }
    let mut acc: usize = 0;
    let mut overflow = false;
    let mut i: usize = start;
    while i < field.len()
        invariant
            start <= i <= field@.len(),
            s == field@,
            d == s.subrange(start as int, s.len() as int),
            d == unsigned_digits(s),
            forall|k: int| 0 <= k < i - start ==> #[trigger] is_digit(d[k]),
            !overflow ==> acc == digits_value(d.take(i - start)),
            overflow ==> digits_value(d.take(i - start)) > usize::MAX,
        decreases field@.len() - i,
    {
        let b = field[i];
        proof {
            assert(d.take(i - start + 1).drop_last() =~= d.take(i - start));
            assert(d.take(i - start + 1).last() == b);
        }
        if !(DIGIT_ZERO <= b && b <= DIGIT_NINE) {
            proof {
                assert(d[i - start] == b);
                assert(!is_digit(d[i - start]));
                assert(!all_digits(d));
            }
            return usize::MAX;
        }
        let digit = (b - DIGIT_ZERO) as usize;
        if !overflow {
            if acc > (usize::MAX - digit) / 10 {
                overflow = true;
            } else {
                acc = acc * 10 + digit;
            }
        }
        i += 1;
    }
    proof {
        assert(d.take(d.len() as int) =~= d);
    }
    if overflow || acc == 0 {
        usize::MAX
    } else {
        acc - 1
    }
}

/// The zero-based indices of a face corner `p`, `p/t` or `p/t/n`, one for
/// each piece between slashes.
pub open spec fn corner_indices(field: Seq<u8>) -> Seq<usize> {
    parts(field, SLASH).map_values(|p: Seq<u8>| obj_index(p))
}

/// Reads the indices of one face corner (see `corner_indices`).
pub fn parse_corner(field: &Vec<u8>) -> (r: Vec<usize>)
    ensures
        r@ == corner_indices(field@),
{
    let pieces = split_parts(field, SLASH);
    let mut r: Vec<usize> = Vec::new();
    let mut i: usize = 0;
    while i < pieces.len()
        invariant
            i <= pieces@.len(),
            views(pieces@) == parts(field@, SLASH),
            r@ =~= views(pieces@).take(i as int).map_values(|p: Seq<u8>| obj_index(p)),
        decreases pieces@.len() - i,
    {
        let x = parse_index(&pieces[i]);
        r.push(x);
        i += 1;
    }
    proof {
        assert(views(pieces@).take(i as int) =~= views(pieces@));
    }
    r
}


/// One line of a mesh file.
pub enum ObjLine {
    /// `v`: the number fields of a vertex position.
    Position(Vec<Vec<u8>>),
    /// `vt`: the number fields of a texture coordinate.
    TexCoord(Vec<Vec<u8>>),
    /// `vn`: the number fields of a vertex normal.
    Normal(Vec<Vec<u8>>),
    /// `f`: the zero-based indices of each corner, in order.
    Face(Vec<Vec<usize>>),
    /// Any other line: blank, a group, a material name, a comment.
    Other,
}

/// What a line of fields `fs` is read as.
pub open spec fn line_matches(fs: Seq<Seq<u8>>, r: ObjLine) -> bool {
    if fs.len() == 0 {
        r is Other
    } else if fs[0] == seq![LETTER_V] {
        r matches ObjLine::Position(a) && views(a@) == fs.drop_first()
    } else if fs[0] == seq![LETTER_V, LETTER_T] {
        r matches ObjLine::TexCoord(a) && views(a@) == fs.drop_first()
    } else if fs[0] == seq![LETTER_V, LETTER_N] {
        r matches ObjLine::Normal(a) && views(a@) == fs.drop_first()
    } else if fs[0] == seq![LETTER_F] {
        r matches ObjLine::Face(c) && c@.len() == fs.len() - 1 && forall|k: int|
            0 <= k < c@.len() ==> (#[trigger] c@[k])@ == corner_indices(fs[k + 1])
    } else {
        r is Other
    }
}

/// Reads one line of a mesh file: its first field names the record, the
/// others are its arguments.
pub fn parse_line(line: &Vec<u8>) -> (r: ObjLine)
    ensures
        line_matches(fields(line@), r),
{
    let mut fs = split_fields(line);
    if fs.len() == 0 {
        return ObjLine::Other;
    }
    let ghost all = views(fs@);
    let cmd = fs.remove(0);
    proof {
        assert(views(fs@) =~= all.drop_first());
        assert(cmd@ == all[0]);
    }
    let n = cmd.len();
    if n == 1 && cmd[0] == LETTER_V {
        proof {
            assert(cmd@ =~= seq![LETTER_V]);
        }
        ObjLine::Position(fs)
    } else if n == 2 && cmd[0] == LETTER_V && cmd[1] == LETTER_T {
        proof {
            assert(cmd@ =~= seq![LETTER_V, LETTER_T]);
            assert(cmd@ != seq![LETTER_V]);
        }
        ObjLine::TexCoord(fs)
    } else if n == 2 && cmd[0] == LETTER_V && cmd[1] == LETTER_N {
        proof {
            assert(cmd@ =~= seq![LETTER_V, LETTER_N]);
            assert(cmd@ != seq![LETTER_V]);
            assert(cmd@ != seq![LETTER_V, LETTER_T]);
        }
        ObjLine::Normal(fs)
    } else if n == 1 && cmd[0] == LETTER_F {
        proof {
            assert(cmd@ =~= seq![LETTER_F]);
            assert(cmd@ != seq![LETTER_V]);
            assert(cmd@ != seq![LETTER_V, LETTER_T]);
            assert(cmd@ != seq![LETTER_V, LETTER_N]);
        }
        let mut corners: Vec<Vec<usize>> = Vec::new();
        let mut k: usize = 0;
        while k < fs.len()
            invariant
                k <= fs@.len(),
                views(fs@) == all.drop_first(),
                all.len() == fs@.len() + 1,
                corners@.len() == k,
                forall|j: int| 0 <= j < k ==> (#[trigger] corners@[j])@ == corner_indices(all[j + 1]),
            decreases fs@.len() - k,
        {
            proof {
                assert(views(fs@)[k as int] == fs@[k as int]@);
                assert(all.drop_first()[k as int] == all[k + 1]);
            }
            let c = parse_corner(&fs[k]);
            let ghost cv = c@;
            corners.push(c);
            proof {
                assert(corners@[k as int]@ == cv);
            }
            k += 1;
        }
        ObjLine::Face(corners)
    } else {
        proof {
            if cmd@ == seq![LETTER_V] || cmd@ == seq![LETTER_F] {
                assert(cmd@.len() == 1);
            }
            if cmd@ == seq![LETTER_V, LETTER_T] || cmd@ == seq![LETTER_V, LETTER_N] {
                assert(cmd@.len() == 2);
                assert(cmd@[1] == cmd[1]);
            }
        }
        ObjLine::Other
    }
}

/// The vertex data that a triangle of a mesh takes from its file: the
/// positions of its three corners and, where the face gives them, their
/// texture coordinates and normals.
#[derive(Clone, Copy, Debug)]
pub struct FaceRefs {
    pub positions: (usize, usize, usize),
    pub texcoords_normals: Option<((usize, usize, usize), (usize, usize, usize))>,
}

/// Why a face cannot be made into a triangle.
#[derive(PartialEq, Eq, Structural, Clone, Copy, Debug)]
pub enum FaceError {
    /// The face lists fewer than three corners.
    TooFewCorners,
    /// A corner lacks an index that the face needs, or an index names no
    /// element of the lists read so far.
    BadIndex,
}

/// The face gives texture coordinates and normals: its first corner has more
/// than a position index.
pub open spec fn shaded_face(c: Seq<Seq<usize>>) -> bool {
    c[0].len() != 1
}

/// Each of the first three corners of `c` has the indices that the face
/// needs, and they name elements of lists of the given lengths.
pub open spec fn face_in_range(c: Seq<Seq<usize>>, n_pos: usize, n_tex: usize, n_norm: usize) -> bool {
    forall|k: int|
        0 <= k < 3 ==> {
            &&& (#[trigger] c[k]).len() >= 1
            &&& c[k][0] < n_pos
            &&& shaded_face(c) ==> c[k].len() >= 3 && c[k][1] < n_tex && c[k][2] < n_norm
        }
}

/// Makes a triangle of the first three corners of a face, checked against
/// the numbers of positions, texture coordinates and normals read so far.
/// Corners past the third are not used.
pub fn resolve_face(corners: &Vec<Vec<usize>>, n_pos: usize, n_tex: usize, n_norm: usize) -> (r:
    Result<FaceRefs, FaceError>)
    ensures
        r == Err::<FaceRefs, FaceError>(FaceError::TooFewCorners) <==> corners@.len() < 3,
        r == Err::<FaceRefs, FaceError>(FaceError::BadIndex) <==> corners@.len() >= 3
            && !face_in_range(views_usize(corners@), n_pos, n_tex, n_norm),
        r matches Ok(f) ==> {
            let c = views_usize(corners@);
            &&& f.positions == (c[0][0], c[1][0], c[2][0])
            &&& !shaded_face(c) ==> f.texcoords_normals is None
            &&& shaded_face(c) ==> f.texcoords_normals == Some(
                ((c[0][1], c[1][1], c[2][1]), (c[0][2], c[1][2], c[2][2])),
            )
        },
{
    if corners.len() < 3 {
        return Err(FaceError::TooFewCorners);
    }
    let ghost c = views_usize(corners@);
    let a = &corners[0];
    let b = &corners[1];
    let d = &corners[2];
    proof {
        assert(c[0] == a@ && c[1] == b@ && c[2] == d@);
    }
    if a.len() < 1 || b.len() < 1 || d.len() < 1 {
        return Err(FaceError::BadIndex);
    }
    if a[0] >= n_pos || b[0] >= n_pos || d[0] >= n_pos {
        return Err(FaceError::BadIndex);
    }
    if a.len() == 1 {
        proof {
            assert(face_in_range(c, n_pos, n_tex, n_norm));
        }
        return Ok(FaceRefs { positions: (a[0], b[0], d[0]), texcoords_normals: None });
    }
    if a.len() < 3 || b.len() < 3 || d.len() < 3 {
        return Err(FaceError::BadIndex);
    }
    if a[1] >= n_tex || b[1] >= n_tex || d[1] >= n_tex {
        return Err(FaceError::BadIndex);
    }
    if a[2] >= n_norm || b[2] >= n_norm || d[2] >= n_norm {
        return Err(FaceError::BadIndex);
    }
    proof {
        assert(face_in_range(c, n_pos, n_tex, n_norm));
    }
    Ok(
        FaceRefs {
            positions: (a[0], b[0], d[0]),
            texcoords_normals: Some(((a[1], b[1], d[1]), (a[2], b[2], d[2]))),
        },
    )
}

} // verus!
