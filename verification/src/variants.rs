use vstd::prelude::*;
use vstd::std_specs::convert::TryIntoSpec;

verus! {

/// One value of a property. `F32`, `XYVec` and `XYZVec` hold the bit
/// patterns of `f32` values.
#[derive(Debug)]
pub enum Variant {
    Bool(bool),
    U32(u32),
    I32(i32),
    I16(i16),
    F32(u32),
    U64(u64),
    U8(u8),
    String(String),
    XYVec([u32; 2]),
    XYZVec([u32; 3]),
    StringVec(Vec<String>),
    U32Vec(Vec<u32>),
    U64Vec(Vec<u64>),
    Stickers(Vec<Sticker>),
    InputHistory(Vec<InputHistory>),
}

/// A sticker on a weapon; `wear`, `x` and `y` are `f32` bit patterns.
#[derive(Debug)]
pub struct Sticker {
    pub name: String,
    pub wear: u32,
    pub id: u32,
    pub x: u32,
    pub y: u32,
}

/// One entry of a player's input history; the coordinates and fractions
/// are `f32` bit patterns.
#[derive(Debug, Clone, Copy, PartialEq, Eq, Structural)]
pub struct InputHistory {
    pub x: Option<u32>,
    pub y: Option<u32>,
    pub z: Option<u32>,
    pub render_tick_count: i32,
    pub render_tick_fraction: u32,
    pub player_tick_count: i32,
    pub player_tick_fraction: u32,
}

/// The values of one property over many rows, all of one kind; a missing
/// value is `None`, or an empty list in the list kinds.
#[derive(Debug)]
pub enum VarVec {
    U32(Vec<Option<u32>>),
    Bool(Vec<Option<bool>>),
    U64(Vec<Option<u64>>),
    F32(Vec<Option<u32>>),
    I32(Vec<Option<i32>>),
    String(Vec<Option<String>>),
    StringVec(Vec<Vec<String>>),
    U64Vec(Vec<Vec<u64>>),
    U32Vec(Vec<Vec<u32>>),
    XYVec(Vec<Option<[u32; 2]>>),
    XYZVec(Vec<Option<[u32; 3]>>),
    Stickers(Vec<Vec<Sticker>>),
    InputHistory(Vec<Vec<InputHistory>>),
}

/// What one row of a column holds, as a mathematical value.
pub enum Cell {
    Missing,
    Bool(bool),
    U32(u32),
    U64(u64),
    F32(u32),
    I32(i32),
    Str(Seq<char>),
    XY([u32; 2]),
    XYZ([u32; 3]),
    Strs(Seq<Seq<char>>),
    U64s(Seq<u64>),
    U32s(Seq<u32>),
    Stickers(Seq<(Seq<char>, u32, u32, u32, u32)>),
    Inputs(Seq<InputHistory>),
}

/// The texts of a list of strings.
pub open spec fn strings_view(s: Seq<String>) -> Seq<Seq<char>> {
    s.map_values(|x: String| x@)
}

/// A sticker as a tuple of its name's text and its numbers.
pub open spec fn sticker_view(s: Sticker) -> (Seq<char>, u32, u32, u32, u32) {
    (s.name@, s.wear, s.id, s.x, s.y)
}

/// The views of a list of stickers.
pub open spec fn stickers_view(s: Seq<Sticker>) -> Seq<(Seq<char>, u32, u32, u32, u32)> {
    s.map_values(|x: Sticker| sticker_view(x))
}

/// A copy of a list of strings.
pub fn copy_strings(x: &Vec<String>) -> (r: Vec<String>)
    ensures
        strings_view(r@) == strings_view(x@),
{
    let mut r: Vec<String> = Vec::new();
    let mut i: usize = 0;
    while i < x.len()
        invariant
            i <= x@.len(),
            r@.len() == i,
            forall|k: int| 0 <= k < i ==> #[trigger] r@[k]@ == x@[k]@,
        decreases x@.len() - i,
    {
        r.push(x[i].clone());
        i += 1;
    }
    assert(strings_view(r@) =~= strings_view(x@));
    r
}

/// A copy of a list of stickers.
pub fn copy_stickers(x: &Vec<Sticker>) -> (r: Vec<Sticker>)
    ensures
        stickers_view(r@) == stickers_view(x@),
{
    let mut r: Vec<Sticker> = Vec::new();
    let mut i: usize = 0;
    while i < x.len()
        invariant
            i <= x@.len(),
            r@.len() == i,
            forall|k: int| 0 <= k < i ==> #[trigger] sticker_view(r@[k]) == sticker_view(x@[k]),
        decreases x@.len() - i,
    {
        let s = &x[i];
        r.push(Sticker { name: s.name.clone(), wear: s.wear, id: s.id, x: s.x, y: s.y });
        i += 1;
    }
    assert(stickers_view(r@) =~= stickers_view(x@));
    r
}

/// A copy of a list of plain values.
pub fn copy_plain<T: Copy>(x: &Vec<T>) -> (r: Vec<T>)
    ensures
        r@ == x@,
{
    let mut r: Vec<T> = Vec::new();
    let mut i: usize = 0;
    while i < x.len()
        invariant
            i <= x@.len(),
            r@ == x@.take(i as int),
        decreases x@.len() - i,
    {
        r.push(x[i]);
        i += 1;
        assert(r@ =~= x@.take(i as int));
    }
    assert(x@.take(x@.len() as int) =~= x@);
    r
}

/// The positions are in ascending order.
pub open spec fn sorted(s: Seq<usize>) -> bool {
    forall|i: int, j: int| 0 <= i <= j < s.len() ==> s[i] <= s[j]
}

/// The positions that `s` lists.
pub open spec fn index_set(s: Seq<usize>) -> Set<int> {
    Set::new(|p: int| exists|i: int| 0 <= i < s.len() && s[i] as int == p)
}

/// The elements of `s` whose positions are in `set`, in order.
pub open spec fn keep<A>(s: Seq<A>, set: Set<int>) -> Seq<A>
    decreases s.len(),
{
    if s.len() == 0 {
        Seq::empty()
    } else {
        let r = keep(s.drop_last(), set);
        if set.contains(s.len() - 1) { r.push(s.last()) } else { r }
    }
}

/// Keeping positions commutes with changing each element.
pub proof fn lemma_keep_map<A, B>(s: Seq<A>, set: Set<int>, f: spec_fn(A) -> B)
    ensures
        keep(s.map_values(f), set) == keep(s, set).map_values(f),
    decreases s.len(),
{
    if s.len() > 0 {
        lemma_keep_map(s.drop_last(), set, f);
        assert(s.map_values(f).drop_last() =~= s.drop_last().map_values(f));
        assert(keep(s.map_values(f), set) =~= keep(s, set).map_values(f));
    } else {
        assert(keep(s.map_values(f), set) =~= keep(s, set).map_values(f));
    }
}

/// Keeps the elements of `v` whose positions `indices` lists, in order.
pub fn retain_positions<T>(v: &mut Vec<T>, indices: &[usize])
    requires
        sorted(indices@),
    ensures
        final(v)@ == keep(old(v)@, index_set(indices@)),
{
    let ghost orig = v@;
    let ghost n = orig.len();
    assert(n == v.len());
    let ghost set = index_set(indices@);
    let mut rev: Vec<T> = Vec::new();
    while v.len() > 0
        invariant
            n == orig.len(),
            n <= usize::MAX,
            v@ == orig.take(v@.len() as int),
            v@.len() <= n,
            rev@.len() == n - v@.len(),
            forall|i: int| 0 <= i < rev@.len() ==> #[trigger] rev@[i] == orig[n - 1 - i],
        decreases v@.len(),
    {
        let ghost before = v@;
        let x = v.pop().unwrap();
        assert(v@ =~= orig.take(v@.len() as int));
        rev.push(x);
    }
    let mut out: Vec<T> = Vec::new();
    let mut p: usize = 0;
    let mut j: usize = 0;
    assert(orig.take(0) =~= Seq::<T>::empty());
    while rev.len() > 0
        invariant
            n == orig.len(),
            n <= usize::MAX,
            set == index_set(indices@),
            sorted(indices@),
            rev@.len() == n - p,
            p <= n,
            forall|i: int| 0 <= i < rev@.len() ==> #[trigger] rev@[i] == orig[n - 1 - i],
            out@ == keep(orig.take(p as int), set),
            j <= indices@.len(),
            forall|q: int| 0 <= q < j ==> #[trigger] indices@[q] < p,
        decreases rev@.len(),
    {
        let x = rev.pop().unwrap();
        assert(x == orig[p as int]);
        while j < indices.len() && indices[j] < p
            invariant
                j <= indices@.len(),
                forall|q: int| 0 <= q < j ==> #[trigger] indices@[q] < p,
            decreases indices@.len() - j,
        {
            j += 1;
        }
        let member = j < indices.len() && indices[j] == p;
        assert(member == set.contains(p as int)) by {
            if !member {
                if exists|i: int| 0 <= i < indices@.len() && indices@[i] as int == p {
                    let i = choose|i: int| 0 <= i < indices@.len() && indices@[i] as int == p;
                    if i < j {
                        assert(indices@[i] < p);
                    } else {
                        assert(indices@[j as int] <= indices@[i]);
                    }
                }
            }
        }
        let ghost prev = orig.take(p as int);
        assert(orig.take(p + 1).drop_last() =~= prev);
        assert(orig.take(p + 1).last() == orig[p as int]);
        if member {
            out.push(x);
        }
        p += 1;
        assert forall|q: int| 0 <= q < j implies #[trigger] indices@[q] < p by {}
    }
    assert(orig.take(n as int) =~= orig);
    *v = out;
}

/// The values of one property over the rows collected so far. Until the
/// first value comes, only the number of empty rows is kept.
#[derive(Debug)]
pub struct PropColumn {
    pub data: Option<VarVec>,
    pub num_nones: usize,
}

/// The rows of a column of kind `kind` holding no value.
pub open spec fn blanks(kind: VarKind, n: nat) -> Seq<Cell> {
    Seq::new(n, |i: int| blank_cell(kind))
}

impl PropColumn {
    /// The number of rows.
    pub open spec fn spec_len(self) -> nat {
        match self.data {
            Some(v) => v.cells().len(),
            None => self.num_nones as nat,
        }
    }

    /// A column with no rows.
    pub fn new() -> (r: PropColumn)
        ensures
            r.data is None,
            r.num_nones == 0,
    {
        PropColumn { data: None, num_nones: 0 }
    }

    /// The number of rows.
    pub fn len(&self) -> (r: usize)
        ensures
            r == self.spec_len(),
    {
        match &self.data {
            Some(v) => v.len(),
            None => self.num_nones,
        }
    }

    /// Appends a row. The first value fixes the column's kind, with the
    /// empty rows before it kept as empty rows of that kind.
    pub fn push(&mut self, item: Option<Variant>)
        requires
            old(self).spec_len() < usize::MAX,
        ensures
            match old(self).data {
                None => match item {
                    None => final(self).data is None && final(self).num_nones == old(self).num_nones + 1,
                    Some(v) => final(self).num_nones == 0 && (final(self).data matches Some(d)
                        && d.kind() == variant_kind(v)
                        && d.cells() == pushed_cells(variant_kind(v), blanks(variant_kind(v), old(self).num_nones as nat), item)),
                },
                Some(od) => final(self).num_nones == old(self).num_nones && (final(self).data matches Some(d)
                    && d.kind() == od.kind() && d.cells() == pushed_cells(od.kind(), od.cells(), item)),
            },
    {
        if self.data.is_none() {
            match &item {
                Some(data) => {
                    let mut var_vec = VarVec::new(data);
                    var_vec.push_n_nones(self.num_nones);
                    assert(var_vec.cells() =~= blanks(var_vec.kind(), self.num_nones as nat));
                    self.data = Some(var_vec);
                    self.num_nones = 0;
                },
                None => {
                    self.num_nones += 1;
                },
            }
        }
        match &mut self.data {
            Some(var_vec) => {
                var_vec.push_variant(item);
            },
            None => {},
        }
    }

    /// Gives the column a vector of the kind of `v`, holding as many empty
    /// rows as it has.
    pub fn resolve_vec_type(&mut self, v: &VarVec)
        ensures
            final(self).num_nones == old(self).num_nones,
            final(self).data matches Some(d) && d.kind() == v.kind()
                && d.cells() == blanks(v.kind(), old(self).num_nones as nat),
    {
        let mut data = match v {
            VarVec::Bool(_) => VarVec::Bool(Vec::new()),
            VarVec::F32(_) => VarVec::F32(Vec::new()),
            VarVec::I32(_) => VarVec::I32(Vec::new()),
            VarVec::String(_) => VarVec::String(Vec::new()),
            VarVec::U32(_) => VarVec::U32(Vec::new()),
            VarVec::U64(_) => VarVec::U64(Vec::new()),
            VarVec::StringVec(_) => VarVec::StringVec(Vec::new()),
            VarVec::U64Vec(_) => VarVec::U64Vec(Vec::new()),
            VarVec::XYVec(_) => VarVec::XYVec(Vec::new()),
            VarVec::XYZVec(_) => VarVec::XYZVec(Vec::new()),
            VarVec::Stickers(_) => VarVec::Stickers(Vec::new()),
            VarVec::U32Vec(_) => VarVec::U32Vec(Vec::new()),
            VarVec::InputHistory(_) => VarVec::InputHistory(Vec::new()),
        };
        data.push_n_nones(self.num_nones);
        assert(data.cells() =~= blanks(v.kind(), self.num_nones as nat));
        self.data = Some(data);
    }

    /// Appends the rows of `other`. Rows of another kind are not taken; a
    /// column without values only counts empty rows.
    pub fn extend_from(&mut self, other: &mut PropColumn)
        requires
            old(self).spec_len() + old(other).spec_len() <= usize::MAX,
        ensures
            *final(other) == *old(other),
            extended(*old(self), *old(other), *final(self)),
            same_kinds(*old(self), *old(other)) ==> final(self).spec_len() == old(self).spec_len() + old(other).spec_len(),
            forall|k: VarKind| #[trigger] column_kind_is(*old(self), k) && column_kind_is(*old(other), k)
                ==> column_rows(*final(self), k) == column_rows(*old(self), k) + column_rows(*old(other), k),
            !same_kinds(*old(self), *old(other)) ==> column_rows(*final(self), old(self).data->Some_0.kind())
                == column_rows(*old(self), old(self).data->Some_0.kind()),
    {
        if self.data.is_none() {
            match &other.data {
                Some(other_data) => {
                    self.resolve_vec_type(other_data);
                },
                None => {
                    self.num_nones += other.num_nones;
                    return;
                },
            }
        }
        match &mut self.data {
            Some(data) => {
                match &other.data {
                    Some(other_data) => data.extend_same_kind(other_data),
                    None => data.push_n_nones(other.num_nones),
                }
            },
            None => {},
        }
        proof {
            if old(self).data is None {
                assert(blanks(old(other).data->Some_0.kind(), old(self).num_nones as nat) + old(other).data->Some_0.cells()
                    == final(self).data->Some_0.cells());
            }
            lemma_extended_rows(*old(self), *old(other), *final(self));
        }
    }

    /// Keeps the rows whose positions `indices` lists. A column without
    /// values keeps one empty row per index.
    pub fn retain(&mut self, indices: &[usize])
        requires
            sorted(indices@),
        ensures
            final(self).num_nones == (if old(self).data is None { indices@.len() } else { 0 }),
            match old(self).data {
                None => final(self).data is None,
                Some(od) => final(self).data matches Some(d) && d.kind() == od.kind()
                    && d.cells() == keep(od.cells(), index_set(indices@)),
            },
    {
        self.num_nones = if self.data.is_none() { indices.len() } else { 0 };
        match &mut self.data {
            Some(v) => v.retain_rows(indices),
            None => {},
        }
    }
}

/// The rows of a column read as kind `kind`: a column without values has
/// only empty rows.
pub open spec fn column_rows(c: PropColumn, kind: VarKind) -> Seq<Cell> {
    match c.data {
        Some(d) => d.cells(),
        None => blanks(kind, c.num_nones as nat),
    }
}

/// The column holds no values, or values of kind `k`.
pub open spec fn column_kind_is(c: PropColumn, k: VarKind) -> bool {
    match c.data {
        Some(d) => d.kind() == k,
        None => true,
    }
}

/// The two columns do not hold values of different kinds.
pub open spec fn same_kinds(a: PropColumn, b: PropColumn) -> bool {
    match (a.data, b.data) {
        (Some(ad), Some(bd)) => ad.kind() == bd.kind(),
        _ => true,
    }
}

/// Appending keeps the rows there were and adds the other column's after
/// them, where the kinds agree; where they differ, the rows stay as they
/// were.
pub proof fn lemma_extended_rows(a: PropColumn, b: PropColumn, after: PropColumn)
    requires
        extended(a, b, after),
    ensures
        same_kinds(a, b) ==> after.spec_len() == a.spec_len() + b.spec_len(),
        forall|k: VarKind| #[trigger] column_kind_is(a, k) && column_kind_is(b, k)
            ==> column_rows(after, k) == column_rows(a, k) + column_rows(b, k),
        !same_kinds(a, b) ==> column_rows(after, a.data->Some_0.kind()) == column_rows(a, a.data->Some_0.kind()),
{
    assert forall|k: VarKind| #[trigger] column_kind_is(a, k) && column_kind_is(b, k)
        implies column_rows(after, k) == column_rows(a, k) + column_rows(b, k) by {
        if a.data is None && b.data is None {
            assert(blanks(k, after.num_nones as nat) =~= blanks(k, a.num_nones as nat) + blanks(k, b.num_nones as nat));
        }
    }
}

/// `after` is column `a` with the rows of `b` appended, as `extend_from`
/// does it.
pub open spec fn extended(a: PropColumn, b: PropColumn, after: PropColumn) -> bool {
    match a.data {
        None => match b.data {
            None => after.data is None && after.num_nones == a.num_nones + b.num_nones,
            Some(bd) => after.num_nones == a.num_nones && (after.data matches Some(d) && d.kind() == bd.kind()
                && d.cells() == blanks(bd.kind(), a.num_nones as nat) + bd.cells()),
        },
        Some(ad) => after.num_nones == a.num_nones && (after.data matches Some(d) && d.kind() == ad.kind()
            && d.cells() == (match b.data {
                Some(bd) => if bd.kind() == ad.kind() { ad.cells() + bd.cells() } else { ad.cells() },
                None => ad.cells() + blanks(ad.kind(), b.num_nones as nat),
            })),
    }
}

/// The kind of values a column holds.
#[derive(Debug, Clone, Copy, PartialEq, Eq, Structural)]
pub enum VarKind {
    U32,
    Bool,
    U64,
    F32,
    I32,
    String,
    XYVec,
    XYZVec,
    StringVec,
    U64Vec,
    U32Vec,
    Stickers,
    InputHistory,
}

/// What one row of a column holds.
pub open spec fn blank_cell(kind: VarKind) -> Cell {
    match kind {
        VarKind::U32 => Cell::Missing,
        VarKind::Bool => Cell::Missing,
        VarKind::U64 => Cell::Missing,
        VarKind::F32 => Cell::Missing,
        VarKind::I32 => Cell::Missing,
        VarKind::String => Cell::Missing,
        VarKind::XYVec => Cell::Missing,
        VarKind::XYZVec => Cell::Missing,
        VarKind::StringVec => Cell::Strs(Seq::empty()),
        VarKind::U64Vec => Cell::U64s(Seq::empty()),
        VarKind::U32Vec => Cell::U32s(Seq::empty()),
        VarKind::Stickers => Cell::Stickers(Seq::empty()),
        VarKind::InputHistory => Cell::Inputs(Seq::empty()),
    }
}

impl VarVec {
    /// The kind of values this vector holds.
    pub open spec fn kind(self) -> VarKind {
        match self {
            VarVec::U32(_) => VarKind::U32,
            VarVec::Bool(_) => VarKind::Bool,
            VarVec::U64(_) => VarKind::U64,
            VarVec::F32(_) => VarKind::F32,
            VarVec::I32(_) => VarKind::I32,
            VarVec::String(_) => VarKind::String,
            VarVec::XYVec(_) => VarKind::XYVec,
            VarVec::XYZVec(_) => VarKind::XYZVec,
            VarVec::StringVec(_) => VarKind::StringVec,
            VarVec::U64Vec(_) => VarKind::U64Vec,
            VarVec::U32Vec(_) => VarKind::U32Vec,
            VarVec::Stickers(_) => VarKind::Stickers,
            VarVec::InputHistory(_) => VarKind::InputHistory,
        }
    }

    /// The rows of this vector, one cell each.
    pub open spec fn cells(self) -> Seq<Cell> {
        match self {
            VarVec::U32(v) => v@.map_values(|x: Option<u32>| match x { Some(d) => Cell::U32(d), None => Cell::Missing }),
            VarVec::Bool(v) => v@.map_values(|x: Option<bool>| match x { Some(d) => Cell::Bool(d), None => Cell::Missing }),
            VarVec::U64(v) => v@.map_values(|x: Option<u64>| match x { Some(d) => Cell::U64(d), None => Cell::Missing }),
            VarVec::F32(v) => v@.map_values(|x: Option<u32>| match x { Some(d) => Cell::F32(d), None => Cell::Missing }),
            VarVec::I32(v) => v@.map_values(|x: Option<i32>| match x { Some(d) => Cell::I32(d), None => Cell::Missing }),
            VarVec::String(v) => v@.map_values(|x: Option<String>| match x { Some(d) => Cell::Str(d@), None => Cell::Missing }),
            VarVec::XYVec(v) => v@.map_values(|x: Option<[u32; 2]>| match x { Some(d) => Cell::XY(d), None => Cell::Missing }),
            VarVec::XYZVec(v) => v@.map_values(|x: Option<[u32; 3]>| match x { Some(d) => Cell::XYZ(d), None => Cell::Missing }),
            VarVec::StringVec(v) => v@.map_values(|d: Vec<String>| Cell::Strs(strings_view(d@))),
            VarVec::U64Vec(v) => v@.map_values(|d: Vec<u64>| Cell::U64s(d@)),
            VarVec::U32Vec(v) => v@.map_values(|d: Vec<u32>| Cell::U32s(d@)),
            VarVec::Stickers(v) => v@.map_values(|d: Vec<Sticker>| Cell::Stickers(stickers_view(d@))),
            VarVec::InputHistory(v) => v@.map_values(|d: Vec<InputHistory>| Cell::Inputs(d@)),
        }
    }

    /// An empty vector of kind `kind`.
    pub fn empty_of_kind(kind: VarKind) -> (r: VarVec)
        ensures
            r.kind() == kind,
            r.cells().len() == 0,
    {
        match kind {
            VarKind::U32 => VarVec::U32(Vec::new()),
            VarKind::Bool => VarVec::Bool(Vec::new()),
            VarKind::U64 => VarVec::U64(Vec::new()),
            VarKind::F32 => VarVec::F32(Vec::new()),
            VarKind::I32 => VarVec::I32(Vec::new()),
            VarKind::String => VarVec::String(Vec::new()),
            VarKind::XYVec => VarVec::XYVec(Vec::new()),
            VarKind::XYZVec => VarVec::XYZVec(Vec::new()),
            VarKind::StringVec => VarVec::StringVec(Vec::new()),
            VarKind::U64Vec => VarVec::U64Vec(Vec::new()),
            VarKind::U32Vec => VarVec::U32Vec(Vec::new()),
            VarKind::Stickers => VarVec::Stickers(Vec::new()),
            VarKind::InputHistory => VarVec::InputHistory(Vec::new()),
        }
    }

    /// The number of rows.
    pub fn len(&self) -> (r: usize)
        ensures
            r == self.cells().len(),
    {
        match self {
            VarVec::U32(v) => v.len(),
            VarVec::Bool(v) => v.len(),
            VarVec::U64(v) => v.len(),
            VarVec::F32(v) => v.len(),
            VarVec::I32(v) => v.len(),
            VarVec::String(v) => v.len(),
            VarVec::XYVec(v) => v.len(),
            VarVec::XYZVec(v) => v.len(),
            VarVec::StringVec(v) => v.len(),
            VarVec::U64Vec(v) => v.len(),
            VarVec::U32Vec(v) => v.len(),
            VarVec::Stickers(v) => v.len(),
            VarVec::InputHistory(v) => v.len(),
        }
    }

    /// Appends `count` empty rows.
    pub fn push_n_nones(&mut self, count: usize)
        requires
            old(self).cells().len() + count <= usize::MAX,
        ensures
            final(self).kind() == old(self).kind(),
            final(self).cells() == old(self).cells() + Seq::new(count as nat, |i: int| blank_cell(old(self).kind())),
    {
        if count == 0 {
            assert(old(self).cells() + Seq::new(0, |i: int| blank_cell(old(self).kind())) =~= old(self).cells());
            return;
        }
        match self {
            VarVec::U32(v) => {
                let ghost v0 = v@;
                let mut i: usize = 0;
                while i < count
                    invariant
                        i <= count,
                        v0.len() + count <= usize::MAX,
                        v@.len() == v0.len() + i,
                        v@.map_values(|x: Option<u32>| match x { Some(d) => Cell::U32(d), None => Cell::Missing }) == v0.map_values(|x: Option<u32>| match x { Some(d) => Cell::U32(d), None => Cell::Missing }) + Seq::new(i as nat, |j: int| Cell::Missing),
                    decreases count - i,
                {
                    let ghost before = v@;
                    v.push(None);
                    assert(v@.map_values(|x: Option<u32>| match x { Some(d) => Cell::U32(d), None => Cell::Missing }) =~= before.map_values(|x: Option<u32>| match x { Some(d) => Cell::U32(d), None => Cell::Missing }).push(Cell::Missing));
                    i += 1;
                    assert(v@.map_values(|x: Option<u32>| match x { Some(d) => Cell::U32(d), None => Cell::Missing }) =~= v0.map_values(|x: Option<u32>| match x { Some(d) => Cell::U32(d), None => Cell::Missing }) + Seq::new(i as nat, |j: int| Cell::Missing));
                }
            },
            VarVec::Bool(v) => {
                let ghost v0 = v@;
                let mut i: usize = 0;
                while i < count
                    invariant
                        i <= count,
                        v0.len() + count <= usize::MAX,
                        v@.len() == v0.len() + i,
                        v@.map_values(|x: Option<bool>| match x { Some(d) => Cell::Bool(d), None => Cell::Missing }) == v0.map_values(|x: Option<bool>| match x { Some(d) => Cell::Bool(d), None => Cell::Missing }) + Seq::new(i as nat, |j: int| Cell::Missing),
                    decreases count - i,
                {
                    let ghost before = v@;
                    v.push(None);
                    assert(v@.map_values(|x: Option<bool>| match x { Some(d) => Cell::Bool(d), None => Cell::Missing }) =~= before.map_values(|x: Option<bool>| match x { Some(d) => Cell::Bool(d), None => Cell::Missing }).push(Cell::Missing));
                    i += 1;
                    assert(v@.map_values(|x: Option<bool>| match x { Some(d) => Cell::Bool(d), None => Cell::Missing }) =~= v0.map_values(|x: Option<bool>| match x { Some(d) => Cell::Bool(d), None => Cell::Missing }) + Seq::new(i as nat, |j: int| Cell::Missing));
                }
            },
            VarVec::U64(v) => {
                let ghost v0 = v@;
                let mut i: usize = 0;
                while i < count
                    invariant
                        i <= count,
                        v0.len() + count <= usize::MAX,
                        v@.len() == v0.len() + i,
                        v@.map_values(|x: Option<u64>| match x { Some(d) => Cell::U64(d), None => Cell::Missing }) == v0.map_values(|x: Option<u64>| match x { Some(d) => Cell::U64(d), None => Cell::Missing }) + Seq::new(i as nat, |j: int| Cell::Missing),
                    decreases count - i,
                {
                    let ghost before = v@;
                    v.push(None);
                    assert(v@.map_values(|x: Option<u64>| match x { Some(d) => Cell::U64(d), None => Cell::Missing }) =~= before.map_values(|x: Option<u64>| match x { Some(d) => Cell::U64(d), None => Cell::Missing }).push(Cell::Missing));
                    i += 1;
                    assert(v@.map_values(|x: Option<u64>| match x { Some(d) => Cell::U64(d), None => Cell::Missing }) =~= v0.map_values(|x: Option<u64>| match x { Some(d) => Cell::U64(d), None => Cell::Missing }) + Seq::new(i as nat, |j: int| Cell::Missing));
                }
            },
            VarVec::F32(v) => {
                let ghost v0 = v@;
                let mut i: usize = 0;
                while i < count
                    invariant
                        i <= count,
                        v0.len() + count <= usize::MAX,
                        v@.len() == v0.len() + i,
                        v@.map_values(|x: Option<u32>| match x { Some(d) => Cell::F32(d), None => Cell::Missing }) == v0.map_values(|x: Option<u32>| match x { Some(d) => Cell::F32(d), None => Cell::Missing }) + Seq::new(i as nat, |j: int| Cell::Missing),
                    decreases count - i,
                {
                    let ghost before = v@;
                    v.push(None);
                    assert(v@.map_values(|x: Option<u32>| match x { Some(d) => Cell::F32(d), None => Cell::Missing }) =~= before.map_values(|x: Option<u32>| match x { Some(d) => Cell::F32(d), None => Cell::Missing }).push(Cell::Missing));
                    i += 1;
                    assert(v@.map_values(|x: Option<u32>| match x { Some(d) => Cell::F32(d), None => Cell::Missing }) =~= v0.map_values(|x: Option<u32>| match x { Some(d) => Cell::F32(d), None => Cell::Missing }) + Seq::new(i as nat, |j: int| Cell::Missing));
                }
            },
            VarVec::I32(v) => {
                let ghost v0 = v@;
                let mut i: usize = 0;
                while i < count
                    invariant
                        i <= count,
                        v0.len() + count <= usize::MAX,
                        v@.len() == v0.len() + i,
                        v@.map_values(|x: Option<i32>| match x { Some(d) => Cell::I32(d), None => Cell::Missing }) == v0.map_values(|x: Option<i32>| match x { Some(d) => Cell::I32(d), None => Cell::Missing }) + Seq::new(i as nat, |j: int| Cell::Missing),
                    decreases count - i,
                {
                    let ghost before = v@;
                    v.push(None);
                    assert(v@.map_values(|x: Option<i32>| match x { Some(d) => Cell::I32(d), None => Cell::Missing }) =~= before.map_values(|x: Option<i32>| match x { Some(d) => Cell::I32(d), None => Cell::Missing }).push(Cell::Missing));
                    i += 1;
                    assert(v@.map_values(|x: Option<i32>| match x { Some(d) => Cell::I32(d), None => Cell::Missing }) =~= v0.map_values(|x: Option<i32>| match x { Some(d) => Cell::I32(d), None => Cell::Missing }) + Seq::new(i as nat, |j: int| Cell::Missing));
                }
            },
            VarVec::String(v) => {
                let ghost v0 = v@;
                let mut i: usize = 0;
                while i < count
                    invariant
                        i <= count,
                        v0.len() + count <= usize::MAX,
                        v@.len() == v0.len() + i,
                        v@.map_values(|x: Option<String>| match x { Some(d) => Cell::Str(d@), None => Cell::Missing }) == v0.map_values(|x: Option<String>| match x { Some(d) => Cell::Str(d@), None => Cell::Missing }) + Seq::new(i as nat, |j: int| Cell::Missing),
                    decreases count - i,
                {
                    let ghost before = v@;
                    v.push(None);
                    assert(v@.map_values(|x: Option<String>| match x { Some(d) => Cell::Str(d@), None => Cell::Missing }) =~= before.map_values(|x: Option<String>| match x { Some(d) => Cell::Str(d@), None => Cell::Missing }).push(Cell::Missing));
                    i += 1;
                    assert(v@.map_values(|x: Option<String>| match x { Some(d) => Cell::Str(d@), None => Cell::Missing }) =~= v0.map_values(|x: Option<String>| match x { Some(d) => Cell::Str(d@), None => Cell::Missing }) + Seq::new(i as nat, |j: int| Cell::Missing));
                }
            },
            VarVec::XYVec(v) => {
                let ghost v0 = v@;
                let mut i: usize = 0;
                while i < count
                    invariant
                        i <= count,
                        v0.len() + count <= usize::MAX,
                        v@.len() == v0.len() + i,
                        v@.map_values(|x: Option<[u32; 2]>| match x { Some(d) => Cell::XY(d), None => Cell::Missing }) == v0.map_values(|x: Option<[u32; 2]>| match x { Some(d) => Cell::XY(d), None => Cell::Missing }) + Seq::new(i as nat, |j: int| Cell::Missing),
                    decreases count - i,
                {
                    let ghost before = v@;
                    v.push(None);
                    assert(v@.map_values(|x: Option<[u32; 2]>| match x { Some(d) => Cell::XY(d), None => Cell::Missing }) =~= before.map_values(|x: Option<[u32; 2]>| match x { Some(d) => Cell::XY(d), None => Cell::Missing }).push(Cell::Missing));
                    i += 1;
                    assert(v@.map_values(|x: Option<[u32; 2]>| match x { Some(d) => Cell::XY(d), None => Cell::Missing }) =~= v0.map_values(|x: Option<[u32; 2]>| match x { Some(d) => Cell::XY(d), None => Cell::Missing }) + Seq::new(i as nat, |j: int| Cell::Missing));
                }
            },
            VarVec::XYZVec(v) => {
                let ghost v0 = v@;
                let mut i: usize = 0;
                while i < count
                    invariant
                        i <= count,
                        v0.len() + count <= usize::MAX,
                        v@.len() == v0.len() + i,
                        v@.map_values(|x: Option<[u32; 3]>| match x { Some(d) => Cell::XYZ(d), None => Cell::Missing }) == v0.map_values(|x: Option<[u32; 3]>| match x { Some(d) => Cell::XYZ(d), None => Cell::Missing }) + Seq::new(i as nat, |j: int| Cell::Missing),
                    decreases count - i,
                {
                    let ghost before = v@;
                    v.push(None);
                    assert(v@.map_values(|x: Option<[u32; 3]>| match x { Some(d) => Cell::XYZ(d), None => Cell::Missing }) =~= before.map_values(|x: Option<[u32; 3]>| match x { Some(d) => Cell::XYZ(d), None => Cell::Missing }).push(Cell::Missing));
                    i += 1;
                    assert(v@.map_values(|x: Option<[u32; 3]>| match x { Some(d) => Cell::XYZ(d), None => Cell::Missing }) =~= v0.map_values(|x: Option<[u32; 3]>| match x { Some(d) => Cell::XYZ(d), None => Cell::Missing }) + Seq::new(i as nat, |j: int| Cell::Missing));
                }
            },
            VarVec::StringVec(v) => {
                let ghost v0 = v@;
                let mut i: usize = 0;
                while i < count
                    invariant
                        i <= count,
                        v0.len() + count <= usize::MAX,
                        v@.len() == v0.len() + i,
                        v@.map_values(|d: Vec<String>| Cell::Strs(strings_view(d@))) == v0.map_values(|d: Vec<String>| Cell::Strs(strings_view(d@))) + Seq::new(i as nat, |j: int| Cell::Strs(Seq::empty())),
                    decreases count - i,
                {
                    let ghost before = v@;
                    let e: Vec<String> = Vec::new();
                    assert(strings_view(e@) =~= Seq::empty());
                    v.push(e);
                    assert(v@.map_values(|d: Vec<String>| Cell::Strs(strings_view(d@))) =~= before.map_values(|d: Vec<String>| Cell::Strs(strings_view(d@))).push(Cell::Strs(Seq::empty())));
                    i += 1;
                    assert(v@.map_values(|d: Vec<String>| Cell::Strs(strings_view(d@))) =~= v0.map_values(|d: Vec<String>| Cell::Strs(strings_view(d@))) + Seq::new(i as nat, |j: int| Cell::Strs(Seq::empty())));
                }
            },
            VarVec::U64Vec(v) => {
                let ghost v0 = v@;
                let mut i: usize = 0;
                while i < count
                    invariant
                        i <= count,
                        v0.len() + count <= usize::MAX,
                        v@.len() == v0.len() + i,
                        v@.map_values(|d: Vec<u64>| Cell::U64s(d@)) == v0.map_values(|d: Vec<u64>| Cell::U64s(d@)) + Seq::new(i as nat, |j: int| Cell::U64s(Seq::empty())),
                    decreases count - i,
                {
                    let ghost before = v@;
                    v.push(Vec::new());
                    assert(v@.map_values(|d: Vec<u64>| Cell::U64s(d@)) =~= before.map_values(|d: Vec<u64>| Cell::U64s(d@)).push(Cell::U64s(Seq::empty())));
                    i += 1;
                    assert(v@.map_values(|d: Vec<u64>| Cell::U64s(d@)) =~= v0.map_values(|d: Vec<u64>| Cell::U64s(d@)) + Seq::new(i as nat, |j: int| Cell::U64s(Seq::empty())));
                }
            },
            VarVec::U32Vec(v) => {
                let ghost v0 = v@;
                let mut i: usize = 0;
                while i < count
                    invariant
                        i <= count,
                        v0.len() + count <= usize::MAX,
                        v@.len() == v0.len() + i,
                        v@.map_values(|d: Vec<u32>| Cell::U32s(d@)) == v0.map_values(|d: Vec<u32>| Cell::U32s(d@)) + Seq::new(i as nat, |j: int| Cell::U32s(Seq::empty())),
                    decreases count - i,
                {
                    let ghost before = v@;
                    v.push(Vec::new());
                    assert(v@.map_values(|d: Vec<u32>| Cell::U32s(d@)) =~= before.map_values(|d: Vec<u32>| Cell::U32s(d@)).push(Cell::U32s(Seq::empty())));
                    i += 1;
                    assert(v@.map_values(|d: Vec<u32>| Cell::U32s(d@)) =~= v0.map_values(|d: Vec<u32>| Cell::U32s(d@)) + Seq::new(i as nat, |j: int| Cell::U32s(Seq::empty())));
                }
            },
            VarVec::Stickers(v) => {
                let ghost v0 = v@;
                let mut i: usize = 0;
                while i < count
                    invariant
                        i <= count,
                        v0.len() + count <= usize::MAX,
                        v@.len() == v0.len() + i,
                        v@.map_values(|d: Vec<Sticker>| Cell::Stickers(stickers_view(d@))) == v0.map_values(|d: Vec<Sticker>| Cell::Stickers(stickers_view(d@))) + Seq::new(i as nat, |j: int| Cell::Stickers(Seq::empty())),
                    decreases count - i,
                {
                    let ghost before = v@;
                    let e: Vec<Sticker> = Vec::new();
                    assert(stickers_view(e@) =~= Seq::empty());
                    v.push(e);
                    assert(v@.map_values(|d: Vec<Sticker>| Cell::Stickers(stickers_view(d@))) =~= before.map_values(|d: Vec<Sticker>| Cell::Stickers(stickers_view(d@))).push(Cell::Stickers(Seq::empty())));
                    i += 1;
                    assert(v@.map_values(|d: Vec<Sticker>| Cell::Stickers(stickers_view(d@))) =~= v0.map_values(|d: Vec<Sticker>| Cell::Stickers(stickers_view(d@))) + Seq::new(i as nat, |j: int| Cell::Stickers(Seq::empty())));
                }
            },
            VarVec::InputHistory(v) => {
                let ghost v0 = v@;
                let mut i: usize = 0;
                while i < count
                    invariant
                        i <= count,
                        v0.len() + count <= usize::MAX,
                        v@.len() == v0.len() + i,
                        v@.map_values(|d: Vec<InputHistory>| Cell::Inputs(d@)) == v0.map_values(|d: Vec<InputHistory>| Cell::Inputs(d@)) + Seq::new(i as nat, |j: int| Cell::Inputs(Seq::empty())),
                    decreases count - i,
                {
                    let ghost before = v@;
                    v.push(Vec::new());
                    assert(v@.map_values(|d: Vec<InputHistory>| Cell::Inputs(d@)) =~= before.map_values(|d: Vec<InputHistory>| Cell::Inputs(d@)).push(Cell::Inputs(Seq::empty())));
                    i += 1;
                    assert(v@.map_values(|d: Vec<InputHistory>| Cell::Inputs(d@)) =~= v0.map_values(|d: Vec<InputHistory>| Cell::Inputs(d@)) + Seq::new(i as nat, |j: int| Cell::Inputs(Seq::empty())));
                }
            },
        }
    }

    /// Appends `item`: an empty row for `None`, the value where it is of
    /// this vector's kind; a value of another kind is dropped.
    pub fn push_variant(&mut self, item: Option<Variant>)
        requires
            old(self).cells().len() < usize::MAX,
        ensures
            final(self).kind() == old(self).kind(),
            final(self).cells() == pushed_cells(old(self).kind(), old(self).cells(), item),
    {
        let variant = match item {
            Some(x) => x,
            None => {
                self.push_n_nones(1);
                assert(Seq::new(1, |i: int| blank_cell(old(self).kind())) =~= seq![blank_cell(old(self).kind())]);
                return;
            },
        };
        match (variant, self) {
            (Variant::U32(data), VarVec::U32(v)) => {
                let ghost before = v@;
                v.push(Some(data));
                assert(v@.map_values(|x: Option<u32>| match x { Some(d) => Cell::U32(d), None => Cell::Missing }) =~= before.map_values(|x: Option<u32>| match x { Some(d) => Cell::U32(d), None => Cell::Missing }).push(variant_cell(Variant::U32(data))));
            },
            (Variant::Bool(data), VarVec::Bool(v)) => {
                let ghost before = v@;
                v.push(Some(data));
                assert(v@.map_values(|x: Option<bool>| match x { Some(d) => Cell::Bool(d), None => Cell::Missing }) =~= before.map_values(|x: Option<bool>| match x { Some(d) => Cell::Bool(d), None => Cell::Missing }).push(variant_cell(Variant::Bool(data))));
            },
            (Variant::U64(data), VarVec::U64(v)) => {
                let ghost before = v@;
                v.push(Some(data));
                assert(v@.map_values(|x: Option<u64>| match x { Some(d) => Cell::U64(d), None => Cell::Missing }) =~= before.map_values(|x: Option<u64>| match x { Some(d) => Cell::U64(d), None => Cell::Missing }).push(variant_cell(Variant::U64(data))));
            },
            (Variant::F32(data), VarVec::F32(v)) => {
                let ghost before = v@;
                v.push(Some(data));
                assert(v@.map_values(|x: Option<u32>| match x { Some(d) => Cell::F32(d), None => Cell::Missing }) =~= before.map_values(|x: Option<u32>| match x { Some(d) => Cell::F32(d), None => Cell::Missing }).push(variant_cell(Variant::F32(data))));
            },
            (Variant::I32(data), VarVec::I32(v)) => {
                let ghost before = v@;
                v.push(Some(data));
                assert(v@.map_values(|x: Option<i32>| match x { Some(d) => Cell::I32(d), None => Cell::Missing }) =~= before.map_values(|x: Option<i32>| match x { Some(d) => Cell::I32(d), None => Cell::Missing }).push(variant_cell(Variant::I32(data))));
            },
            (Variant::String(data), VarVec::String(v)) => {
                let ghost before = v@;
                v.push(Some(data));
                assert(v@.map_values(|x: Option<String>| match x { Some(d) => Cell::Str(d@), None => Cell::Missing }) =~= before.map_values(|x: Option<String>| match x { Some(d) => Cell::Str(d@), None => Cell::Missing }).push(variant_cell(Variant::String(data))));
            },
            (Variant::XYVec(data), VarVec::XYVec(v)) => {
                let ghost before = v@;
                v.push(Some(data));
                assert(v@.map_values(|x: Option<[u32; 2]>| match x { Some(d) => Cell::XY(d), None => Cell::Missing }) =~= before.map_values(|x: Option<[u32; 2]>| match x { Some(d) => Cell::XY(d), None => Cell::Missing }).push(variant_cell(Variant::XYVec(data))));
            },
            (Variant::XYZVec(data), VarVec::XYZVec(v)) => {
                let ghost before = v@;
                v.push(Some(data));
                assert(v@.map_values(|x: Option<[u32; 3]>| match x { Some(d) => Cell::XYZ(d), None => Cell::Missing }) =~= before.map_values(|x: Option<[u32; 3]>| match x { Some(d) => Cell::XYZ(d), None => Cell::Missing }).push(variant_cell(Variant::XYZVec(data))));
            },
            (Variant::StringVec(data), VarVec::StringVec(v)) => {
                let ghost before = v@;
                v.push(data);
                assert(v@.map_values(|d: Vec<String>| Cell::Strs(strings_view(d@))) =~= before.map_values(|d: Vec<String>| Cell::Strs(strings_view(d@))).push(variant_cell(Variant::StringVec(data))));
            },
            (Variant::U64Vec(data), VarVec::U64Vec(v)) => {
                let ghost before = v@;
                v.push(data);
                assert(v@.map_values(|d: Vec<u64>| Cell::U64s(d@)) =~= before.map_values(|d: Vec<u64>| Cell::U64s(d@)).push(variant_cell(Variant::U64Vec(data))));
            },
            (Variant::U32Vec(data), VarVec::U32Vec(v)) => {
                let ghost before = v@;
                v.push(data);
                assert(v@.map_values(|d: Vec<u32>| Cell::U32s(d@)) =~= before.map_values(|d: Vec<u32>| Cell::U32s(d@)).push(variant_cell(Variant::U32Vec(data))));
            },
            (Variant::Stickers(data), VarVec::Stickers(v)) => {
                let ghost before = v@;
                v.push(data);
                assert(v@.map_values(|d: Vec<Sticker>| Cell::Stickers(stickers_view(d@))) =~= before.map_values(|d: Vec<Sticker>| Cell::Stickers(stickers_view(d@))).push(variant_cell(Variant::Stickers(data))));
            },
            (Variant::InputHistory(data), VarVec::InputHistory(v)) => {
                let ghost before = v@;
                v.push(data);
                assert(v@.map_values(|d: Vec<InputHistory>| Cell::Inputs(d@)) =~= before.map_values(|d: Vec<InputHistory>| Cell::Inputs(d@)).push(variant_cell(Variant::InputHistory(data))));
            },
            _ => {},
        }
    }

    /// Appends copies of the rows of `other` when it is of the same kind;
    /// of another kind nothing changes.
    pub fn extend_same_kind(&mut self, other: &VarVec)
        requires
            old(self).cells().len() + other.cells().len() <= usize::MAX,
        ensures
            final(self).kind() == old(self).kind(),
            final(self).cells() == if old(self).kind() == other.kind() { old(self).cells() + other.cells() } else { old(self).cells() },
    {
        match (self, other) {
            (VarVec::U32(v), VarVec::U32(o)) => {
                let ghost v0 = v@;
                let mut i: usize = 0;
                while i < o.len()
                    invariant
                        i <= o@.len(),
                        v0.len() + o@.len() <= usize::MAX,
                        v@.len() == v0.len() + i,
                        v@.map_values(|x: Option<u32>| match x { Some(d) => Cell::U32(d), None => Cell::Missing }) == v0.map_values(|x: Option<u32>| match x { Some(d) => Cell::U32(d), None => Cell::Missing }) + o@.take(i as int).map_values(|x: Option<u32>| match x { Some(d) => Cell::U32(d), None => Cell::Missing }),
                    decreases o@.len() - i,
                {
                    let ghost before = v@;
                    let x = copy_u32_row(&o[i]);
                    v.push(x);
                    assert(o@.take(i + 1) =~= o@.take(i as int).push(o@[i as int]));
                    assert(v@.map_values(|x: Option<u32>| match x { Some(d) => Cell::U32(d), None => Cell::Missing }) =~= before.map_values(|x: Option<u32>| match x { Some(d) => Cell::U32(d), None => Cell::Missing }).push((|x: Option<u32>| match x { Some(d) => Cell::U32(d), None => Cell::Missing })(o@[i as int])));
                    i += 1;
                    assert(v@.map_values(|x: Option<u32>| match x { Some(d) => Cell::U32(d), None => Cell::Missing }) =~= v0.map_values(|x: Option<u32>| match x { Some(d) => Cell::U32(d), None => Cell::Missing }) + o@.take(i as int).map_values(|x: Option<u32>| match x { Some(d) => Cell::U32(d), None => Cell::Missing }));
                }
                assert(o@.take(o@.len() as int) =~= o@);
            },
            (VarVec::Bool(v), VarVec::Bool(o)) => {
                let ghost v0 = v@;
                let mut i: usize = 0;
                while i < o.len()
                    invariant
                        i <= o@.len(),
                        v0.len() + o@.len() <= usize::MAX,
                        v@.len() == v0.len() + i,
                        v@.map_values(|x: Option<bool>| match x { Some(d) => Cell::Bool(d), None => Cell::Missing }) == v0.map_values(|x: Option<bool>| match x { Some(d) => Cell::Bool(d), None => Cell::Missing }) + o@.take(i as int).map_values(|x: Option<bool>| match x { Some(d) => Cell::Bool(d), None => Cell::Missing }),
                    decreases o@.len() - i,
                {
                    let ghost before = v@;
                    let x = copy_bool_row(&o[i]);
                    v.push(x);
                    assert(o@.take(i + 1) =~= o@.take(i as int).push(o@[i as int]));
                    assert(v@.map_values(|x: Option<bool>| match x { Some(d) => Cell::Bool(d), None => Cell::Missing }) =~= before.map_values(|x: Option<bool>| match x { Some(d) => Cell::Bool(d), None => Cell::Missing }).push((|x: Option<bool>| match x { Some(d) => Cell::Bool(d), None => Cell::Missing })(o@[i as int])));
                    i += 1;
                    assert(v@.map_values(|x: Option<bool>| match x { Some(d) => Cell::Bool(d), None => Cell::Missing }) =~= v0.map_values(|x: Option<bool>| match x { Some(d) => Cell::Bool(d), None => Cell::Missing }) + o@.take(i as int).map_values(|x: Option<bool>| match x { Some(d) => Cell::Bool(d), None => Cell::Missing }));
                }
                assert(o@.take(o@.len() as int) =~= o@);
            },
            (VarVec::U64(v), VarVec::U64(o)) => {
                let ghost v0 = v@;
                let mut i: usize = 0;
                while i < o.len()
                    invariant
                        i <= o@.len(),
                        v0.len() + o@.len() <= usize::MAX,
                        v@.len() == v0.len() + i,
                        v@.map_values(|x: Option<u64>| match x { Some(d) => Cell::U64(d), None => Cell::Missing }) == v0.map_values(|x: Option<u64>| match x { Some(d) => Cell::U64(d), None => Cell::Missing }) + o@.take(i as int).map_values(|x: Option<u64>| match x { Some(d) => Cell::U64(d), None => Cell::Missing }),
                    decreases o@.len() - i,
                {
                    let ghost before = v@;
                    let x = copy_u64_row(&o[i]);
                    v.push(x);
                    assert(o@.take(i + 1) =~= o@.take(i as int).push(o@[i as int]));
                    assert(v@.map_values(|x: Option<u64>| match x { Some(d) => Cell::U64(d), None => Cell::Missing }) =~= before.map_values(|x: Option<u64>| match x { Some(d) => Cell::U64(d), None => Cell::Missing }).push((|x: Option<u64>| match x { Some(d) => Cell::U64(d), None => Cell::Missing })(o@[i as int])));
                    i += 1;
                    assert(v@.map_values(|x: Option<u64>| match x { Some(d) => Cell::U64(d), None => Cell::Missing }) =~= v0.map_values(|x: Option<u64>| match x { Some(d) => Cell::U64(d), None => Cell::Missing }) + o@.take(i as int).map_values(|x: Option<u64>| match x { Some(d) => Cell::U64(d), None => Cell::Missing }));
                }
                assert(o@.take(o@.len() as int) =~= o@);
            },
            (VarVec::F32(v), VarVec::F32(o)) => {
                let ghost v0 = v@;
                let mut i: usize = 0;
                while i < o.len()
                    invariant
                        i <= o@.len(),
                        v0.len() + o@.len() <= usize::MAX,
                        v@.len() == v0.len() + i,
                        v@.map_values(|x: Option<u32>| match x { Some(d) => Cell::F32(d), None => Cell::Missing }) == v0.map_values(|x: Option<u32>| match x { Some(d) => Cell::F32(d), None => Cell::Missing }) + o@.take(i as int).map_values(|x: Option<u32>| match x { Some(d) => Cell::F32(d), None => Cell::Missing }),
                    decreases o@.len() - i,
                {
                    let ghost before = v@;
                    let x = copy_f32_row(&o[i]);
                    v.push(x);
                    assert(o@.take(i + 1) =~= o@.take(i as int).push(o@[i as int]));
                    assert(v@.map_values(|x: Option<u32>| match x { Some(d) => Cell::F32(d), None => Cell::Missing }) =~= before.map_values(|x: Option<u32>| match x { Some(d) => Cell::F32(d), None => Cell::Missing }).push((|x: Option<u32>| match x { Some(d) => Cell::F32(d), None => Cell::Missing })(o@[i as int])));
                    i += 1;
                    assert(v@.map_values(|x: Option<u32>| match x { Some(d) => Cell::F32(d), None => Cell::Missing }) =~= v0.map_values(|x: Option<u32>| match x { Some(d) => Cell::F32(d), None => Cell::Missing }) + o@.take(i as int).map_values(|x: Option<u32>| match x { Some(d) => Cell::F32(d), None => Cell::Missing }));
                }
                assert(o@.take(o@.len() as int) =~= o@);
            },
            (VarVec::I32(v), VarVec::I32(o)) => {
                let ghost v0 = v@;
                let mut i: usize = 0;
                while i < o.len()
                    invariant
                        i <= o@.len(),
                        v0.len() + o@.len() <= usize::MAX,
                        v@.len() == v0.len() + i,
                        v@.map_values(|x: Option<i32>| match x { Some(d) => Cell::I32(d), None => Cell::Missing }) == v0.map_values(|x: Option<i32>| match x { Some(d) => Cell::I32(d), None => Cell::Missing }) + o@.take(i as int).map_values(|x: Option<i32>| match x { Some(d) => Cell::I32(d), None => Cell::Missing }),
                    decreases o@.len() - i,
                {
                    let ghost before = v@;
                    let x = copy_i32_row(&o[i]);
                    v.push(x);
                    assert(o@.take(i + 1) =~= o@.take(i as int).push(o@[i as int]));
                    assert(v@.map_values(|x: Option<i32>| match x { Some(d) => Cell::I32(d), None => Cell::Missing }) =~= before.map_values(|x: Option<i32>| match x { Some(d) => Cell::I32(d), None => Cell::Missing }).push((|x: Option<i32>| match x { Some(d) => Cell::I32(d), None => Cell::Missing })(o@[i as int])));
                    i += 1;
                    assert(v@.map_values(|x: Option<i32>| match x { Some(d) => Cell::I32(d), None => Cell::Missing }) =~= v0.map_values(|x: Option<i32>| match x { Some(d) => Cell::I32(d), None => Cell::Missing }) + o@.take(i as int).map_values(|x: Option<i32>| match x { Some(d) => Cell::I32(d), None => Cell::Missing }));
                }
                assert(o@.take(o@.len() as int) =~= o@);
            },
            (VarVec::String(v), VarVec::String(o)) => {
                let ghost v0 = v@;
                let mut i: usize = 0;
                while i < o.len()
                    invariant
                        i <= o@.len(),
                        v0.len() + o@.len() <= usize::MAX,
                        v@.len() == v0.len() + i,
                        v@.map_values(|x: Option<String>| match x { Some(d) => Cell::Str(d@), None => Cell::Missing }) == v0.map_values(|x: Option<String>| match x { Some(d) => Cell::Str(d@), None => Cell::Missing }) + o@.take(i as int).map_values(|x: Option<String>| match x { Some(d) => Cell::Str(d@), None => Cell::Missing }),
                    decreases o@.len() - i,
                {
                    let ghost before = v@;
                    let x = copy_string_row(&o[i]);
                    v.push(x);
                    assert(o@.take(i + 1) =~= o@.take(i as int).push(o@[i as int]));
                    assert(v@.map_values(|x: Option<String>| match x { Some(d) => Cell::Str(d@), None => Cell::Missing }) =~= before.map_values(|x: Option<String>| match x { Some(d) => Cell::Str(d@), None => Cell::Missing }).push((|x: Option<String>| match x { Some(d) => Cell::Str(d@), None => Cell::Missing })(o@[i as int])));
                    i += 1;
                    assert(v@.map_values(|x: Option<String>| match x { Some(d) => Cell::Str(d@), None => Cell::Missing }) =~= v0.map_values(|x: Option<String>| match x { Some(d) => Cell::Str(d@), None => Cell::Missing }) + o@.take(i as int).map_values(|x: Option<String>| match x { Some(d) => Cell::Str(d@), None => Cell::Missing }));
                }
                assert(o@.take(o@.len() as int) =~= o@);
            },
            (VarVec::XYVec(v), VarVec::XYVec(o)) => {
                let ghost v0 = v@;
                let mut i: usize = 0;
                while i < o.len()
                    invariant
                        i <= o@.len(),
                        v0.len() + o@.len() <= usize::MAX,
                        v@.len() == v0.len() + i,
                        v@.map_values(|x: Option<[u32; 2]>| match x { Some(d) => Cell::XY(d), None => Cell::Missing }) == v0.map_values(|x: Option<[u32; 2]>| match x { Some(d) => Cell::XY(d), None => Cell::Missing }) + o@.take(i as int).map_values(|x: Option<[u32; 2]>| match x { Some(d) => Cell::XY(d), None => Cell::Missing }),
                    decreases o@.len() - i,
                {
                    let ghost before = v@;
                    let x = copy_xyvec_row(&o[i]);
                    v.push(x);
                    assert(o@.take(i + 1) =~= o@.take(i as int).push(o@[i as int]));
                    assert(v@.map_values(|x: Option<[u32; 2]>| match x { Some(d) => Cell::XY(d), None => Cell::Missing }) =~= before.map_values(|x: Option<[u32; 2]>| match x { Some(d) => Cell::XY(d), None => Cell::Missing }).push((|x: Option<[u32; 2]>| match x { Some(d) => Cell::XY(d), None => Cell::Missing })(o@[i as int])));
                    i += 1;
                    assert(v@.map_values(|x: Option<[u32; 2]>| match x { Some(d) => Cell::XY(d), None => Cell::Missing }) =~= v0.map_values(|x: Option<[u32; 2]>| match x { Some(d) => Cell::XY(d), None => Cell::Missing }) + o@.take(i as int).map_values(|x: Option<[u32; 2]>| match x { Some(d) => Cell::XY(d), None => Cell::Missing }));
                }
                assert(o@.take(o@.len() as int) =~= o@);
            },
            (VarVec::XYZVec(v), VarVec::XYZVec(o)) => {
                let ghost v0 = v@;
                let mut i: usize = 0;
                while i < o.len()
                    invariant
                        i <= o@.len(),
                        v0.len() + o@.len() <= usize::MAX,
                        v@.len() == v0.len() + i,
                        v@.map_values(|x: Option<[u32; 3]>| match x { Some(d) => Cell::XYZ(d), None => Cell::Missing }) == v0.map_values(|x: Option<[u32; 3]>| match x { Some(d) => Cell::XYZ(d), None => Cell::Missing }) + o@.take(i as int).map_values(|x: Option<[u32; 3]>| match x { Some(d) => Cell::XYZ(d), None => Cell::Missing }),
                    decreases o@.len() - i,
                {
                    let ghost before = v@;
                    let x = copy_xyzvec_row(&o[i]);
                    v.push(x);
                    assert(o@.take(i + 1) =~= o@.take(i as int).push(o@[i as int]));
                    assert(v@.map_values(|x: Option<[u32; 3]>| match x { Some(d) => Cell::XYZ(d), None => Cell::Missing }) =~= before.map_values(|x: Option<[u32; 3]>| match x { Some(d) => Cell::XYZ(d), None => Cell::Missing }).push((|x: Option<[u32; 3]>| match x { Some(d) => Cell::XYZ(d), None => Cell::Missing })(o@[i as int])));
                    i += 1;
                    assert(v@.map_values(|x: Option<[u32; 3]>| match x { Some(d) => Cell::XYZ(d), None => Cell::Missing }) =~= v0.map_values(|x: Option<[u32; 3]>| match x { Some(d) => Cell::XYZ(d), None => Cell::Missing }) + o@.take(i as int).map_values(|x: Option<[u32; 3]>| match x { Some(d) => Cell::XYZ(d), None => Cell::Missing }));
                }
                assert(o@.take(o@.len() as int) =~= o@);
            },
            (VarVec::StringVec(v), VarVec::StringVec(o)) => {
                let ghost v0 = v@;
                let mut i: usize = 0;
                while i < o.len()
                    invariant
                        i <= o@.len(),
                        v0.len() + o@.len() <= usize::MAX,
                        v@.len() == v0.len() + i,
                        v@.map_values(|d: Vec<String>| Cell::Strs(strings_view(d@))) == v0.map_values(|d: Vec<String>| Cell::Strs(strings_view(d@))) + o@.take(i as int).map_values(|d: Vec<String>| Cell::Strs(strings_view(d@))),
                    decreases o@.len() - i,
                {
                    let ghost before = v@;
                    let x = copy_stringvec_row(&o[i]);
                    v.push(x);
                    assert(o@.take(i + 1) =~= o@.take(i as int).push(o@[i as int]));
                    assert(v@.map_values(|d: Vec<String>| Cell::Strs(strings_view(d@))) =~= before.map_values(|d: Vec<String>| Cell::Strs(strings_view(d@))).push((|d: Vec<String>| Cell::Strs(strings_view(d@)))(o@[i as int])));
                    i += 1;
                    assert(v@.map_values(|d: Vec<String>| Cell::Strs(strings_view(d@))) =~= v0.map_values(|d: Vec<String>| Cell::Strs(strings_view(d@))) + o@.take(i as int).map_values(|d: Vec<String>| Cell::Strs(strings_view(d@))));
                }
                assert(o@.take(o@.len() as int) =~= o@);
            },
            (VarVec::U64Vec(v), VarVec::U64Vec(o)) => {
                let ghost v0 = v@;
                let mut i: usize = 0;
                while i < o.len()
                    invariant
                        i <= o@.len(),
                        v0.len() + o@.len() <= usize::MAX,
                        v@.len() == v0.len() + i,
                        v@.map_values(|d: Vec<u64>| Cell::U64s(d@)) == v0.map_values(|d: Vec<u64>| Cell::U64s(d@)) + o@.take(i as int).map_values(|d: Vec<u64>| Cell::U64s(d@)),
                    decreases o@.len() - i,
                {
                    let ghost before = v@;
                    let x = copy_u64vec_row(&o[i]);
                    v.push(x);
                    assert(o@.take(i + 1) =~= o@.take(i as int).push(o@[i as int]));
                    assert(v@.map_values(|d: Vec<u64>| Cell::U64s(d@)) =~= before.map_values(|d: Vec<u64>| Cell::U64s(d@)).push((|d: Vec<u64>| Cell::U64s(d@))(o@[i as int])));
                    i += 1;
                    assert(v@.map_values(|d: Vec<u64>| Cell::U64s(d@)) =~= v0.map_values(|d: Vec<u64>| Cell::U64s(d@)) + o@.take(i as int).map_values(|d: Vec<u64>| Cell::U64s(d@)));
                }
                assert(o@.take(o@.len() as int) =~= o@);
            },
            (VarVec::U32Vec(v), VarVec::U32Vec(o)) => {
                let ghost v0 = v@;
                let mut i: usize = 0;
                while i < o.len()
                    invariant
                        i <= o@.len(),
                        v0.len() + o@.len() <= usize::MAX,
                        v@.len() == v0.len() + i,
                        v@.map_values(|d: Vec<u32>| Cell::U32s(d@)) == v0.map_values(|d: Vec<u32>| Cell::U32s(d@)) + o@.take(i as int).map_values(|d: Vec<u32>| Cell::U32s(d@)),
                    decreases o@.len() - i,
                {
                    let ghost before = v@;
                    let x = copy_u32vec_row(&o[i]);
                    v.push(x);
                    assert(o@.take(i + 1) =~= o@.take(i as int).push(o@[i as int]));
                    assert(v@.map_values(|d: Vec<u32>| Cell::U32s(d@)) =~= before.map_values(|d: Vec<u32>| Cell::U32s(d@)).push((|d: Vec<u32>| Cell::U32s(d@))(o@[i as int])));
                    i += 1;
                    assert(v@.map_values(|d: Vec<u32>| Cell::U32s(d@)) =~= v0.map_values(|d: Vec<u32>| Cell::U32s(d@)) + o@.take(i as int).map_values(|d: Vec<u32>| Cell::U32s(d@)));
                }
                assert(o@.take(o@.len() as int) =~= o@);
            },
            (VarVec::Stickers(v), VarVec::Stickers(o)) => {
                let ghost v0 = v@;
                let mut i: usize = 0;
                while i < o.len()
                    invariant
                        i <= o@.len(),
                        v0.len() + o@.len() <= usize::MAX,
                        v@.len() == v0.len() + i,
                        v@.map_values(|d: Vec<Sticker>| Cell::Stickers(stickers_view(d@))) == v0.map_values(|d: Vec<Sticker>| Cell::Stickers(stickers_view(d@))) + o@.take(i as int).map_values(|d: Vec<Sticker>| Cell::Stickers(stickers_view(d@))),
                    decreases o@.len() - i,
                {
                    let ghost before = v@;
                    let x = copy_stickers_row(&o[i]);
                    v.push(x);
                    assert(o@.take(i + 1) =~= o@.take(i as int).push(o@[i as int]));
                    assert(v@.map_values(|d: Vec<Sticker>| Cell::Stickers(stickers_view(d@))) =~= before.map_values(|d: Vec<Sticker>| Cell::Stickers(stickers_view(d@))).push((|d: Vec<Sticker>| Cell::Stickers(stickers_view(d@)))(o@[i as int])));
                    i += 1;
                    assert(v@.map_values(|d: Vec<Sticker>| Cell::Stickers(stickers_view(d@))) =~= v0.map_values(|d: Vec<Sticker>| Cell::Stickers(stickers_view(d@))) + o@.take(i as int).map_values(|d: Vec<Sticker>| Cell::Stickers(stickers_view(d@))));
                }
                assert(o@.take(o@.len() as int) =~= o@);
            },
            (VarVec::InputHistory(v), VarVec::InputHistory(o)) => {
                let ghost v0 = v@;
                let mut i: usize = 0;
                while i < o.len()
                    invariant
                        i <= o@.len(),
                        v0.len() + o@.len() <= usize::MAX,
                        v@.len() == v0.len() + i,
                        v@.map_values(|d: Vec<InputHistory>| Cell::Inputs(d@)) == v0.map_values(|d: Vec<InputHistory>| Cell::Inputs(d@)) + o@.take(i as int).map_values(|d: Vec<InputHistory>| Cell::Inputs(d@)),
                    decreases o@.len() - i,
                {
                    let ghost before = v@;
                    let x = copy_inputhistory_row(&o[i]);
                    v.push(x);
                    assert(o@.take(i + 1) =~= o@.take(i as int).push(o@[i as int]));
                    assert(v@.map_values(|d: Vec<InputHistory>| Cell::Inputs(d@)) =~= before.map_values(|d: Vec<InputHistory>| Cell::Inputs(d@)).push((|d: Vec<InputHistory>| Cell::Inputs(d@))(o@[i as int])));
                    i += 1;
                    assert(v@.map_values(|d: Vec<InputHistory>| Cell::Inputs(d@)) =~= v0.map_values(|d: Vec<InputHistory>| Cell::Inputs(d@)) + o@.take(i as int).map_values(|d: Vec<InputHistory>| Cell::Inputs(d@)));
                }
                assert(o@.take(o@.len() as int) =~= o@);
            },
            _ => {},
        }
    }

    /// Keeps the rows whose positions are in `indices`, in order.
    pub fn retain_rows(&mut self, indices: &[usize])
        requires
            sorted(indices@),
        ensures
            final(self).kind() == old(self).kind(),
            final(self).cells() == keep(old(self).cells(), index_set(indices@)),
    {
        match self {
            VarVec::U32(v) => {
                let ghost v0 = v@;
                retain_positions(v, indices);
                proof { lemma_keep_map(v0, index_set(indices@), |x: Option<u32>| match x { Some(d) => Cell::U32(d), None => Cell::Missing }); }
            },
            VarVec::Bool(v) => {
                let ghost v0 = v@;
                retain_positions(v, indices);
                proof { lemma_keep_map(v0, index_set(indices@), |x: Option<bool>| match x { Some(d) => Cell::Bool(d), None => Cell::Missing }); }
            },
            VarVec::U64(v) => {
                let ghost v0 = v@;
                retain_positions(v, indices);
                proof { lemma_keep_map(v0, index_set(indices@), |x: Option<u64>| match x { Some(d) => Cell::U64(d), None => Cell::Missing }); }
            },
            VarVec::F32(v) => {
                let ghost v0 = v@;
                retain_positions(v, indices);
                proof { lemma_keep_map(v0, index_set(indices@), |x: Option<u32>| match x { Some(d) => Cell::F32(d), None => Cell::Missing }); }
            },
            VarVec::I32(v) => {
                let ghost v0 = v@;
                retain_positions(v, indices);
                proof { lemma_keep_map(v0, index_set(indices@), |x: Option<i32>| match x { Some(d) => Cell::I32(d), None => Cell::Missing }); }
            },
            VarVec::String(v) => {
                let ghost v0 = v@;
                retain_positions(v, indices);
                proof { lemma_keep_map(v0, index_set(indices@), |x: Option<String>| match x { Some(d) => Cell::Str(d@), None => Cell::Missing }); }
            },
            VarVec::XYVec(v) => {
                let ghost v0 = v@;
                retain_positions(v, indices);
                proof { lemma_keep_map(v0, index_set(indices@), |x: Option<[u32; 2]>| match x { Some(d) => Cell::XY(d), None => Cell::Missing }); }
            },
            VarVec::XYZVec(v) => {
                let ghost v0 = v@;
                retain_positions(v, indices);
                proof { lemma_keep_map(v0, index_set(indices@), |x: Option<[u32; 3]>| match x { Some(d) => Cell::XYZ(d), None => Cell::Missing }); }
            },
            VarVec::StringVec(v) => {
                let ghost v0 = v@;
                retain_positions(v, indices);
                proof { lemma_keep_map(v0, index_set(indices@), |d: Vec<String>| Cell::Strs(strings_view(d@))); }
            },
            VarVec::U64Vec(v) => {
                let ghost v0 = v@;
                retain_positions(v, indices);
                proof { lemma_keep_map(v0, index_set(indices@), |d: Vec<u64>| Cell::U64s(d@)); }
            },
            VarVec::U32Vec(v) => {
                let ghost v0 = v@;
                retain_positions(v, indices);
                proof { lemma_keep_map(v0, index_set(indices@), |d: Vec<u32>| Cell::U32s(d@)); }
            },
            VarVec::Stickers(v) => {
                let ghost v0 = v@;
                retain_positions(v, indices);
                proof { lemma_keep_map(v0, index_set(indices@), |d: Vec<Sticker>| Cell::Stickers(stickers_view(d@))); }
            },
            VarVec::InputHistory(v) => {
                let ghost v0 = v@;
                retain_positions(v, indices);
                proof { lemma_keep_map(v0, index_set(indices@), |d: Vec<InputHistory>| Cell::Inputs(d@)); }
            },
        }
    }
}

/// The cell that a value is stored as.
pub open spec fn variant_cell(v: Variant) -> Cell {
    match v {
        Variant::Bool(d) => Cell::Bool(d),
        Variant::U32(d) => Cell::U32(d),
        Variant::I32(d) => Cell::I32(d),
        Variant::I16(d) => Cell::I32(d as i32),
        Variant::F32(d) => Cell::F32(d),
        Variant::U64(d) => Cell::U64(d),
        Variant::U8(d) => Cell::I32(d as i32),
        Variant::String(d) => Cell::Str(d@),
        Variant::XYVec(d) => Cell::XY(d),
        Variant::XYZVec(d) => Cell::XYZ(d),
        Variant::StringVec(d) => Cell::Strs(strings_view(d@)),
        Variant::U32Vec(d) => Cell::U32s(d@),
        Variant::U64Vec(d) => Cell::U64s(d@),
        Variant::Stickers(d) => Cell::Stickers(stickers_view(d@)),
        Variant::InputHistory(d) => Cell::Inputs(d@),
    }
}

/// The kind of vector a value starts: small integers go to `I32`.
pub open spec fn variant_kind(v: Variant) -> VarKind {
    match v {
        Variant::Bool(_) => VarKind::Bool,
        Variant::U32(_) => VarKind::U32,
        Variant::I32(_) => VarKind::I32,
        Variant::I16(_) => VarKind::I32,
        Variant::F32(_) => VarKind::F32,
        Variant::U64(_) => VarKind::U64,
        Variant::U8(_) => VarKind::I32,
        Variant::String(_) => VarKind::String,
        Variant::XYVec(_) => VarKind::XYVec,
        Variant::XYZVec(_) => VarKind::XYZVec,
        Variant::StringVec(_) => VarKind::StringVec,
        Variant::U32Vec(_) => VarKind::U32Vec,
        Variant::U64Vec(_) => VarKind::U64Vec,
        Variant::Stickers(_) => VarKind::Stickers,
        Variant::InputHistory(_) => VarKind::InputHistory,
    }
}

/// A value can be stored in a vector of kind `kind`: its kind is that
/// kind, and it is not one of the small integers.
pub open spec fn storable(v: Variant, kind: VarKind) -> bool {
    variant_kind(v) == kind && !(v is I16) && !(v is U8)
}

/// The rows after `item` is pushed onto `cells` of kind `kind`.
pub open spec fn pushed_cells(kind: VarKind, cells: Seq<Cell>, item: Option<Variant>) -> Seq<Cell> {
    match item {
        None => cells.push(blank_cell(kind)),
        Some(v) => if storable(v, kind) { cells.push(variant_cell(v)) } else { cells },
    }
}

impl VarVec {
    /// An empty vector of the kind that `item` starts.
    pub fn new(item: &Variant) -> (r: VarVec)
        ensures
            r.kind() == variant_kind(*item),
            r.cells().len() == 0,
    {
        match item {
            Variant::Bool(_) => VarVec::Bool(Vec::new()),
            Variant::I32(_) => VarVec::I32(Vec::new()),
            Variant::F32(_) => VarVec::F32(Vec::new()),
            Variant::String(_) => VarVec::String(Vec::new()),
            Variant::U64(_) => VarVec::U64(Vec::new()),
            Variant::U32(_) => VarVec::U32(Vec::new()),
            Variant::StringVec(_) => VarVec::StringVec(Vec::new()),
            Variant::U64Vec(_) => VarVec::U64Vec(Vec::new()),
            Variant::U32Vec(_) => VarVec::U32Vec(Vec::new()),
            Variant::XYVec(_) => VarVec::XYVec(Vec::new()),
            Variant::XYZVec(_) => VarVec::XYZVec(Vec::new()),
            Variant::Stickers(_) => VarVec::Stickers(Vec::new()),
            Variant::I16(_) => VarVec::I32(Vec::new()),
            Variant::U8(_) => VarVec::I32(Vec::new()),
            Variant::InputHistory(_) => VarVec::InputHistory(Vec::new()),
        }
    }
}

/// A copy of one row of a `U32` vector.
fn copy_u32_row(x: &Option<u32>) -> (r: Option<u32>)
    ensures
        (|x: Option<u32>| match x { Some(d) => Cell::U32(d), None => Cell::Missing })(r) == (|x: Option<u32>| match x { Some(d) => Cell::U32(d), None => Cell::Missing })(*x),
{
    *x
}

/// A copy of one row of a `Bool` vector.
fn copy_bool_row(x: &Option<bool>) -> (r: Option<bool>)
    ensures
        (|x: Option<bool>| match x { Some(d) => Cell::Bool(d), None => Cell::Missing })(r) == (|x: Option<bool>| match x { Some(d) => Cell::Bool(d), None => Cell::Missing })(*x),
{
    *x
}

/// A copy of one row of a `U64` vector.
fn copy_u64_row(x: &Option<u64>) -> (r: Option<u64>)
    ensures
        (|x: Option<u64>| match x { Some(d) => Cell::U64(d), None => Cell::Missing })(r) == (|x: Option<u64>| match x { Some(d) => Cell::U64(d), None => Cell::Missing })(*x),
{
    *x
}

/// A copy of one row of a `F32` vector.
fn copy_f32_row(x: &Option<u32>) -> (r: Option<u32>)
    ensures
        (|x: Option<u32>| match x { Some(d) => Cell::F32(d), None => Cell::Missing })(r) == (|x: Option<u32>| match x { Some(d) => Cell::F32(d), None => Cell::Missing })(*x),
{
    *x
}

/// A copy of one row of a `I32` vector.
fn copy_i32_row(x: &Option<i32>) -> (r: Option<i32>)
    ensures
        (|x: Option<i32>| match x { Some(d) => Cell::I32(d), None => Cell::Missing })(r) == (|x: Option<i32>| match x { Some(d) => Cell::I32(d), None => Cell::Missing })(*x),
{
    *x
}

/// A copy of one row of a `String` vector.
fn copy_string_row(x: &Option<String>) -> (r: Option<String>)
    ensures
        (|x: Option<String>| match x { Some(d) => Cell::Str(d@), None => Cell::Missing })(r) == (|x: Option<String>| match x { Some(d) => Cell::Str(d@), None => Cell::Missing })(*x),
{
    match x { Some(d) => Some(d.clone()), None => None }
}

/// A copy of one row of a `XYVec` vector.
fn copy_xyvec_row(x: &Option<[u32; 2]>) -> (r: Option<[u32; 2]>)
    ensures
        (|x: Option<[u32; 2]>| match x { Some(d) => Cell::XY(d), None => Cell::Missing })(r) == (|x: Option<[u32; 2]>| match x { Some(d) => Cell::XY(d), None => Cell::Missing })(*x),
{
    *x
}

/// A copy of one row of a `XYZVec` vector.
fn copy_xyzvec_row(x: &Option<[u32; 3]>) -> (r: Option<[u32; 3]>)
    ensures
        (|x: Option<[u32; 3]>| match x { Some(d) => Cell::XYZ(d), None => Cell::Missing })(r) == (|x: Option<[u32; 3]>| match x { Some(d) => Cell::XYZ(d), None => Cell::Missing })(*x),
{
    *x
}

/// A copy of one row of a `StringVec` vector.
fn copy_stringvec_row(x: &Vec<String>) -> (r: Vec<String>)
    ensures
        (|d: Vec<String>| Cell::Strs(strings_view(d@)))(r) == (|d: Vec<String>| Cell::Strs(strings_view(d@)))(*x),
{
    copy_strings(x)
}

/// A copy of one row of a `U64Vec` vector.
fn copy_u64vec_row(x: &Vec<u64>) -> (r: Vec<u64>)
    ensures
        (|d: Vec<u64>| Cell::U64s(d@))(r) == (|d: Vec<u64>| Cell::U64s(d@))(*x),
{
    copy_plain(x)
}

/// A copy of one row of a `U32Vec` vector.
fn copy_u32vec_row(x: &Vec<u32>) -> (r: Vec<u32>)
    ensures
        (|d: Vec<u32>| Cell::U32s(d@))(r) == (|d: Vec<u32>| Cell::U32s(d@))(*x),
{
    copy_plain(x)
}

/// A copy of one row of a `Stickers` vector.
pub fn copy_stickers_row(x: &Vec<Sticker>) -> (r: Vec<Sticker>)
    ensures
        (|d: Vec<Sticker>| Cell::Stickers(stickers_view(d@)))(r) == (|d: Vec<Sticker>| Cell::Stickers(stickers_view(d@)))(*x),
{
    copy_stickers(x)
}

/// A copy of one row of a `InputHistory` vector.
fn copy_inputhistory_row(x: &Vec<InputHistory>) -> (r: Vec<InputHistory>)
    ensures
        (|d: Vec<InputHistory>| Cell::Inputs(d@))(r) == (|d: Vec<InputHistory>| Cell::Inputs(d@))(*x),
{
    copy_plain(x)
}

/// The values of `s` that convert, converted, in order.
pub open spec fn converted<W, T: TryInto<W>>(s: Seq<T>) -> Seq<W>
    decreases s.len(),
{
    if s.len() == 0 {
        Seq::empty()
    } else {
        let r = converted::<W, T>(s.drop_last());
        match <T as TryIntoSpec<W>>::try_into_spec(s.last()) {
            Ok(w) => r.push(w),
            Err(_) => r,
        }
    }
}

/// The items of `v` that convert to `Wanted`, converted, in order; the
/// others are dropped.
pub fn filter_to_vec<Wanted, T: TryInto<Wanted>>(v: Vec<T>) -> (r: Vec<Wanted>)
    ensures
        <T as TryIntoSpec<Wanted>>::obeys_try_into_spec() ==> r@ == converted::<Wanted, T>(v@),
{
    let ghost orig = v@;
    let ghost n = orig.len();
    let mut v = v;
    let mut rev: Vec<T> = Vec::new();
    assert(n == v.len());
    while v.len() > 0
        invariant
            n == orig.len(),
            n <= usize::MAX,
            v@ == orig.take(v@.len() as int),
            v@.len() <= n,
            rev@.len() == n - v@.len(),
            forall|i: int| 0 <= i < rev@.len() ==> #[trigger] rev@[i] == orig[n - 1 - i],
        decreases v@.len(),
    {
        let x = v.pop().unwrap();
        assert(v@ =~= orig.take(v@.len() as int));
        rev.push(x);
    }
    let mut out: Vec<Wanted> = Vec::new();
    let mut p: usize = 0;
    assert(orig.take(0) =~= Seq::<T>::empty());
    while rev.len() > 0
        invariant
            n == orig.len(),
            n <= usize::MAX,
            rev@.len() == n - p,
            p <= n,
            forall|i: int| 0 <= i < rev@.len() ==> #[trigger] rev@[i] == orig[n - 1 - i],
            <T as TryIntoSpec<Wanted>>::obeys_try_into_spec() ==> out@ == converted::<Wanted, T>(orig.take(p as int)),
        decreases rev@.len(),
    {
        let x = rev.pop().unwrap();
        assert(x == orig[p as int]);
        assert(orig.take(p + 1).drop_last() =~= orig.take(p as int));
        assert(orig.take(p + 1).last() == orig[p as int]);
        match x.try_into() {
            Ok(w) => out.push(w),
            Err(_) => {},
        }
        p += 1;
    }
    assert(orig.take(n as int) =~= orig);
    out
}

/// A value as a mathematical value: its kind, its cell, and whether it is
/// one of the small integers.
pub open spec fn variant_view(v: Variant) -> (VarKind, Cell, bool, bool) {
    (variant_kind(v), variant_cell(v), v is I16, v is U8)
}

/// A copy of a value.
pub fn clone_variant(v: &Variant) -> (r: Variant)
    ensures
        variant_view(r) == variant_view(*v),
{
    match v {
        Variant::Bool(d) => Variant::Bool(*d),
        Variant::U32(d) => Variant::U32(*d),
        Variant::I32(d) => Variant::I32(*d),
        Variant::I16(d) => Variant::I16(*d),
        Variant::F32(d) => Variant::F32(*d),
        Variant::U64(d) => Variant::U64(*d),
        Variant::U8(d) => Variant::U8(*d),
        Variant::String(d) => Variant::String(d.clone()),
        Variant::XYVec(d) => Variant::XYVec(*d),
        Variant::XYZVec(d) => Variant::XYZVec(*d),
        Variant::StringVec(d) => Variant::StringVec(copy_strings(d)),
        Variant::U32Vec(d) => Variant::U32Vec(copy_plain(d)),
        Variant::U64Vec(d) => Variant::U64Vec(copy_plain(d)),
        Variant::Stickers(d) => Variant::Stickers(copy_stickers(d)),
        Variant::InputHistory(d) => Variant::InputHistory(copy_plain(d)),
    }
}

} // verus!
