//! Scenes read from the tree of a YAML document.
//!
//! A scene is a list of entities, each a map with an `add` entry that
//! names its kind: `camera`, `light`, `sphere` or `plane`. A list of
//! transforms names the operations in the order in which they act on a
//! point.
use crate::canvas::Colour;
use crate::decimal::parse_decimal;
use crate::decimal::parsed;
use crate::fixed::Fixed;
use crate::lighting::PointLight;
use crate::matrices::rotation_x;
use crate::matrices::rotation_x_spec;
use crate::matrices::rotation_y;
use crate::matrices::rotation_y_spec;
use crate::matrices::rotation_z;
use crate::matrices::rotation_z_spec;
use crate::matrices::scale;
use crate::matrices::scale_spec;
use crate::matrices::translation;
use crate::matrices::translation_spec;
use crate::matrices::Matrix;
use crate::shapes::Material;
use crate::shapes::Pattern;
use crate::shapes::Shape;
use crate::shapes::ShapeType;
use crate::tuple::Tuple;
use crate::world::view_transform;
use crate::world::view_transform_of;
use crate::world::Camera;
use crate::world::Scene;
use crate::world::World;
use vstd::prelude::*;
use vstd::string::StrSliceExecFns;

verus! {

/// A node of a document: a scalar, a list, or a map with its entries in
/// the order of the document. A real number is kept as its numeral.
#[derive(Debug)]
pub enum Node {
    Real(String),
    Integer(i64),
    Text(String),
    Boolean(bool),
    Array(Vec<Node>),
    Hash(Vec<(Node, Node)>),
    Null,
}

#[derive(Debug, PartialEq, Eq, Clone, Copy, Structural)]
pub enum EntityKind {
    Camera,
    Light,
    Plane,
    Sphere,
}

#[derive(Debug, PartialEq, Eq, Clone, Copy, Structural)]
pub enum TupleKind {
    Vector,
    Point,
}

#[derive(Debug, PartialEq, Eq, Clone, Copy, Structural)]
pub enum TransformType {
    RotateX(Fixed),
    RotateY(Fixed),
    RotateZ(Fixed),
    Translate(Fixed, Fixed, Fixed),
    Scale(Fixed, Fixed, Fixed),
}

/// The value of the first entry at or behind `from` whose key is the
/// text `key`.
pub open spec fn lookup(entries: Seq<(Node, Node)>, key: Seq<char>, from: int) -> Option<Node>
    decreases entries.len() - from,
{
    if from < 0 || from >= entries.len() {
        None
    } else if entries[from].0 is Text && entries[from].0->Text_0@ == key {
        Some(entries[from].1)
    } else {
        lookup(entries, key, from + 1)
    }
}

/// The whole number of a shininess: the value without its fraction, and
/// held between zero and the largest exponent.
pub open spec fn shininess_of(v: Fixed) -> u32 {
    let whole = v.trunc_spec();
    if whole < 0 {
        0
    } else if whole > u32::MAX {
        u32::MAX
    } else {
        whole as u32
    }
}

/// The size that a whole number names, where it names one.
pub open spec fn size_of(v: i64) -> Option<usize> {
    if 0 <= v <= usize::MAX {
        Some(v as usize)
    } else {
        None
    }
}

impl Node {
    /// The value under `key`, where the node is a map that has one.
    pub open spec fn field(self, key: Seq<char>) -> Option<Node> {
        match self {
            Node::Hash(entries) => lookup(entries@, key, 0),
            _ => None,
        }
    }

    /// The item at `k`, where the node is a list that has one.
    pub open spec fn item(self, k: int) -> Option<Node> {
        match self {
            Node::Array(items) => if 0 <= k < items@.len() {
                Some(items@[k])
            } else {
                None
            },
            _ => None,
        }
    }

    /// The number that the node holds: a whole number, or a real one
    /// whose numeral can be read.
    pub open spec fn number(self) -> Option<Fixed> {
        match self {
            Node::Integer(x) => Some(Fixed::from_int_spec(x as int)),
            Node::Real(x) => parsed(x@),
            _ => None,
        }
    }

    /// The first three items of a list, where all three are numbers.
    pub open spec fn triple(self) -> Option<(Fixed, Fixed, Fixed)> {
        match (self.item(0), self.item(1), self.item(2)) {
            (Some(a), Some(b), Some(c)) => match (a.number(), b.number(), c.number()) {
                (Some(x), Some(y), Some(z)) => Some((x, y, z)),
                _ => None,
            },
            _ => None,
        }
    }

    /// The number under `key`, or `default` where the map has no such
    /// entry; nothing where the entry is no number.
    pub open spec fn number_or(self, key: Seq<char>, default: Fixed) -> Option<Fixed> {
        match self.field(key) {
            Some(v) => v.number(),
            None => Some(default),
        }
    }

    /// The colour under `first`, else the one under `second`; nothing
    /// where neither is there, or where what is there is no colour.
    pub open spec fn colour_under(self, first: Seq<char>, second: Seq<char>) -> Option<Colour> {
        match self.field(first) {
            Some(v) => colour_of(v),
            None => match self.field(second) {
                Some(v) => colour_of(v),
                None => None,
            },
        }
    }

    #[verifier::loop_isolation(false)]
    pub fn get_field<'a>(&'a self, key: &str) -> (r: Option<&'a Node>)
        ensures
            match self.field(key@) {
                Some(v) => r.is_some() && *r.unwrap() == v,
                None => r.is_none(),
            },
    {
        match self {
            Node::Hash(entries) => {
                let mut k: usize = 0;
                while k < entries.len()
                    invariant
                        k <= entries@.len(),
                        lookup(entries@, key@, 0) == lookup(entries@, key@, k as int),
                    decreases entries@.len() - k,
                {
                    let found = match &entries[k].0 {
                        Node::Text(t) => same_text(t.as_str(), key),
                        _ => false,
                    };
                    if found {
                        assert(lookup(entries@, key@, k as int) == Some(entries@[k as int].1));
                        return Some(&entries[k].1);
                    }
                    assert(lookup(entries@, key@, k as int) == lookup(entries@, key@, k + 1));
                    k = k + 1;
                }
                None
            },
            _ => None,
        }
    }

    pub fn get_item<'a>(&'a self, k: usize) -> (r: Option<&'a Node>)
        ensures
            match self.item(k as int) {
                Some(v) => r.is_some() && *r.unwrap() == v,
                None => r.is_none(),
            },
    {
        match self {
            Node::Array(items) => if k < items.len() {
                Some(&items[k])
            } else {
                None
            },
            _ => None,
        }
    }

    pub fn get_triple(&self) -> (r: Option<(Fixed, Fixed, Fixed)>)
        ensures
            r == self.triple(),
    {
        match (self.get_item(0), self.get_item(1), self.get_item(2)) {
            (Some(a), Some(b), Some(c)) => match (
                parse_number(a),
                parse_number(b),
                parse_number(c),
            ) {
                (Some(x), Some(y), Some(z)) => Some((x, y, z)),
                _ => None,
            },
            _ => None,
        }
    }

    pub fn get_number_or(&self, key: &str, default: Fixed) -> (r: Option<Fixed>)
        ensures
            r == self.number_or(key@, default),
    {
        match self.get_field(key) {
            Some(v) => parse_number(v),
            None => Some(default),
        }
    }

    pub fn get_colour_under(&self, first: &str, second: &str) -> (r: Option<Colour>)
        ensures
            r == self.colour_under(first@, second@),
    {
        match self.get_field(first) {
            Some(v) => destructure_yaml_array_into_colour(v),
            None => match self.get_field(second) {
                Some(v) => destructure_yaml_array_into_colour(v),
                None => None,
            },
        }
    }
}

/// Whether two texts hold the same characters.
pub fn same_text(a: &str, b: &str) -> (r: bool)
    ensures
        r == (a@ == b@),
{
    let n = a.unicode_len();
    if n != b.unicode_len() {
        return false;
    }
    let mut k: usize = 0;
    while k < n
        invariant
            k <= n,
            n == a@.len(),
            n == b@.len(),
            forall|j: int| 0 <= j < k ==> a@[j] == b@[j],
        decreases n - k,
    {
        if a.get_char(k) != b.get_char(k) {
            return false;
        }
        k = k + 1;
    }
    assert(a@ =~= b@);
    true
}

/// The colour that a list of three numbers names.
pub open spec fn colour_of(node: Node) -> Option<Colour> {
    match node.triple() {
        Some((r, g, b)) => Some(Colour { red: r, green: g, blue: b }),
        None => None,
    }
}

/// The point or the vector that a list of three numbers names.
pub open spec fn tuple_of(node: Node, kind: TupleKind) -> Option<Tuple> {
    match node.triple() {
        Some((x, y, z)) => Some(
            match kind {
                TupleKind::Vector => Tuple::vector_spec(x, y, z),
                TupleKind::Point => Tuple::point_spec(x, y, z),
            },
        ),
        None => None,
    }
}

/// The operation that a list names: its first item is the name, the
/// items behind it are the angle or the three amounts.
#[verifier::opaque]
pub open spec fn transform_of(node: Node) -> Option<TransformType> {
    match node.item(0) {
        Some(Node::Text(name)) => {
            let one = match node.item(1) {
                Some(v) => v.number(),
                None => None,
            };
            let two = match node.item(2) {
                Some(v) => v.number(),
                None => None,
            };
            let three = match node.item(3) {
                Some(v) => v.number(),
                None => None,
            };
            if name@ == "rotate-x"@ {
                match one {
                    Some(a) => Some(TransformType::RotateX(a)),
                    None => None,
                }
            } else if name@ == "rotate-y"@ {
                match one {
                    Some(a) => Some(TransformType::RotateY(a)),
                    None => None,
                }
            } else if name@ == "rotate-z"@ {
                match one {
                    Some(a) => Some(TransformType::RotateZ(a)),
                    None => None,
                }
            } else if name@ == "translate"@ {
                match (one, two, three) {
                    (Some(x), Some(y), Some(z)) => Some(TransformType::Translate(x, y, z)),
                    _ => None,
                }
            } else if name@ == "scale"@ {
                match (one, two, three) {
                    (Some(x), Some(y), Some(z)) => Some(TransformType::Scale(x, y, z)),
                    _ => None,
                }
            } else {
                None
            }
        },
        _ => None,
    }
}

/// The matrix of an operation.
#[verifier::opaque]
pub open spec fn matrix_of(t: TransformType) -> Matrix<4> {
    match t {
        TransformType::RotateX(a) => rotation_x_spec(a),
        TransformType::RotateY(a) => rotation_y_spec(a),
        TransformType::RotateZ(a) => rotation_z_spec(a),
        TransformType::Scale(x, y, z) => scale_spec(x, y, z),
        TransformType::Translate(x, y, z) => translation_spec(x, y, z),
    }
}

/// The product of the matrices of the last `n` operations of the list,
/// the last operation's matrix first: applied to a point, it performs
/// those operations in the order of the list.
pub open spec fn chained(items: Seq<Node>, n: nat) -> Option<Matrix<4>>
    decreases n,
{
    if n == 0 {
        Some(Matrix::<4>::identity_spec())
    } else {
        match (chained(items, (n - 1) as nat), transform_of(items[items.len() - n])) {
            (Some(m), Some(t)) => Some(m.product(matrix_of(t))),
            _ => None,
        }
    }
}

/// The transform that a list of operations names.
pub open spec fn transforms_of(node: Node) -> Option<Matrix<4>> {
    match node {
        Node::Array(items) => chained(items@, items@.len()),
        _ => None,
    }
}

/// The two colours and the transform of a pattern.
#[verifier::opaque]
pub open spec fn pattern_parts(node: Node) -> Option<(Colour, Colour, Matrix<4>)> {
    match (
        node.colour_under("colour-a"@, "color-a"@),
        node.colour_under("colour-b"@, "color-b"@),
        node.field("transform"@),
    ) {
        (Some(a), Some(b), Some(t)) => match transforms_of(t) {
            Some(m) => Some((a, b, m)),
            None => None,
        },
        _ => None,
    }
}

/// The pattern that a map names: its `type` is `3d-check` or `stripe`.
#[verifier::opaque]
pub open spec fn pattern_of(node: Node) -> Option<Pattern> {
    match node.field("type"@) {
        Some(Node::Text(name)) => match pattern_parts(node) {
            Some((a, b, m)) => if name@ == "3d-check"@ {
                Some(Pattern::Check3D { colour_a: a, colour_b: b, transform: m })
            } else if name@ == "stripe"@ {
                Some(Pattern::Stripe { colour_a: a, colour_b: b, transform: m })
            } else {
                None
            },
            None => None,
        },
        _ => None,
    }
}

/// The colour of a material: under `colour`, else under `color`, else
/// white.
#[verifier::opaque]
pub open spec fn material_colour(node: Node) -> Option<Colour> {
    if node.field("colour"@).is_none() && node.field("color"@).is_none() {
        Some(Colour::white_spec())
    } else {
        node.colour_under("colour"@, "color"@)
    }
}

/// The pattern of a material: none where the map names none.
#[verifier::opaque]
pub open spec fn material_pattern(node: Node) -> Option<Option<Pattern>> {
    match node.field("pattern"@) {
        Some(p) => match pattern_of(p) {
            Some(pattern) => Some(Some(pattern)),
            None => None,
        },
        None => Some(None),
    }
}

/// The material that a map names: the default one, with every entry
/// that the map holds put in its place.
#[verifier::opaque]
pub open spec fn material_of(node: Node) -> Option<Material> {
    let d = Material::default_spec();
    match (
        material_colour(node),
        node.number_or("ambient"@, d.ambient),
        node.number_or("diffuse"@, d.diffuse),
        node.number_or("specular"@, d.specular),
        node.number_or("shininess"@, Fixed::from_int_spec(200)),
        node.number_or("reflectivity"@, d.reflectivity),
        node.number_or("transparency"@, d.transparency),
        node.number_or("refractive_index"@, d.refractive_index),
        material_pattern(node),
    ) {
        (
            Some(colour),
            Some(ambient),
            Some(diffuse),
            Some(specular),
            Some(shininess),
            Some(reflectivity),
            Some(transparency),
            Some(refractive_index),
            Some(pattern),
        ) => Some(
            Material {
                colour,
                ambient,
                diffuse,
                specular,
                shininess: shininess_of(shininess),
                reflectivity,
                transparency,
                refractive_index,
                pattern,
            },
        ),
        _ => None,
    }
}

/// The kind of an entity: what its `add` entry names.
#[verifier::opaque]
pub open spec fn kind_of(node: Node) -> Option<EntityKind> {
    match node.field("add"@) {
        Some(Node::Text(kind)) => if kind@ == "sphere"@ {
            Some(EntityKind::Sphere)
        } else if kind@ == "plane"@ {
            Some(EntityKind::Plane)
        } else if kind@ == "camera"@ {
            Some(EntityKind::Camera)
        } else if kind@ == "light"@ {
            Some(EntityKind::Light)
        } else {
            None
        },
        _ => None,
    }
}

/// The transform of a shape: the identity where the map holds no list
/// of operations.
#[verifier::opaque]
pub open spec fn shape_transform(node: Node) -> Option<Matrix<4>> {
    match node.field("transform"@) {
        Some(Node::Array(items)) => transforms_of(Node::Array(items)),
        _ => Some(Matrix::<4>::identity_spec()),
    }
}

/// The material of a shape: the default one where the map holds no map
/// of a material.
#[verifier::opaque]
pub open spec fn shape_material(node: Node) -> Option<Material> {
    match node.field("material"@) {
        Some(Node::Hash(entries)) => material_of(Node::Hash(entries)),
        _ => Some(Material::default_spec()),
    }
}

/// The shape that an entity of the kind `sphere` or `plane` names.
#[verifier::opaque]
pub open spec fn shape_of(node: Node) -> Option<Shape> {
    match (shape_transform(node), shape_material(node), kind_of(node)) {
        (Some(transform), Some(material), Some(EntityKind::Sphere)) => Some(
            Shape { material, transform, shape: ShapeType::Sphere },
        ),
        (Some(transform), Some(material), Some(EntityKind::Plane)) => Some(
            Shape { material, transform, shape: ShapeType::Plane },
        ),
        _ => None,
    }
}

/// The light that an entity names: its place under `at`, its colour
/// under `intensity`.
#[verifier::opaque]
pub open spec fn light_of(node: Node) -> Option<PointLight> {
    match (node.field("at"@), node.field("intensity"@)) {
        (Some(at), Some(intensity)) => match (
            tuple_of(at, TupleKind::Point),
            colour_of(intensity),
        ) {
            (Some(position), Some(colour)) => Some(PointLight { intensity: colour, position }),
            _ => None,
        },
        _ => None,
    }
}

/// The three tuples that place a camera.
#[verifier::opaque]
pub open spec fn camera_view(node: Node) -> Option<(Tuple, Tuple, Tuple)> {
    match (node.field("from"@), node.field("to"@), node.field("up"@)) {
        (Some(from), Some(to), Some(up)) => match (
            tuple_of(from, TupleKind::Point),
            tuple_of(to, TupleKind::Point),
            tuple_of(up, TupleKind::Vector),
        ) {
            (Some(f), Some(t), Some(u)) => Some((f, t, u)),
            _ => None,
        },
        _ => None,
    }
}

/// The width, the height and the field of view of a camera: two whole
/// numbers that are sizes, and a real number.
#[verifier::opaque]
pub open spec fn camera_sizes(node: Node) -> Option<(usize, usize, Fixed)> {
    match (node.field("width"@), node.field("height"@), node.field("field-of-view"@)) {
        (Some(Node::Integer(w)), Some(Node::Integer(h)), Some(Node::Real(f))) => match (
            size_of(w),
            size_of(h),
            parsed(f@),
        ) {
            (Some(width), Some(height), Some(fov)) => Some((width, height, fov)),
            _ => None,
        },
        _ => None,
    }
}

/// The camera that an entity names.
#[verifier::opaque]
pub open spec fn camera_of(node: Node) -> Option<Camera> {
    match (camera_view(node), camera_sizes(node)) {
        (Some((from, to, up)), Some((width, height, fov))) => Some(
            Camera::new_spec(width, height, fov, view_transform_of(from, to, up)),
        ),
        _ => None,
    }
}

/// The scene and the camera after one more entity. A node that is no
/// map is passed over; the last camera is the one that counts.
pub open spec fn with_entity(so_far: (Scene, Camera), node: Node) -> Option<(Scene, Camera)> {
    if !(node is Hash) {
        Some(so_far)
    } else {
        match kind_of(node) {
            Some(EntityKind::Camera) => match camera_of(node) {
                Some(c) => Some((so_far.0, c)),
                None => None,
            },
            Some(EntityKind::Light) => match light_of(node) {
                Some(l) => Some(
                    (Scene { objects: so_far.0.objects, lights: so_far.0.lights.push(l) }, so_far.1),
                ),
                None => None,
            },
            Some(_) => match shape_of(node) {
                Some(s) => Some(
                    (Scene { objects: so_far.0.objects.push(s), lights: so_far.0.lights }, so_far.1),
                ),
                None => None,
            },
            None => None,
        }
    }
}

/// The scene and the camera that the first `n` entities make.
pub open spec fn entities_of(entities: Seq<Node>, n: nat) -> Option<(Scene, Camera)>
    decreases n,
{
    if n == 0 {
        Some(
            (
                Scene { objects: Seq::<Shape>::empty(), lights: Seq::<PointLight>::empty() },
                Camera::blank_spec(),
            ),
        )
    } else {
        match entities_of(entities, (n - 1) as nat) {
            Some(so_far) => with_entity(so_far, entities[n - 1]),
            None => None,
        }
    }
}

/// The scene and the camera that a document names: those of its
/// entities where it is a list, an empty scene and a blank camera where
/// it is not. Nothing where an entity cannot be read.
pub open spec fn scene_of(config: Node) -> Option<(Scene, Camera)> {
    match config {
        Node::Array(entities) => entities_of(entities@, entities@.len()),
        _ => entities_of(Seq::<Node>::empty(), 0),
    }
}

/// The number that a node holds.
pub fn parse_number(num: &Node) -> (r: Option<Fixed>)
    ensures
        r == num.number(),
{
    match num {
        Node::Integer(x) => Some(Fixed::from_int(*x)),
        Node::Real(x) => parse_decimal(x.as_str()),
        _ => None,
    }
}

/// The point or the vector that a list of three numbers names.
pub fn destructure_yaml_array_into_tuple(array: &Node, kind: TupleKind) -> (r: Option<Tuple>)
    ensures
        r == tuple_of(*array, kind),
{
    match array.get_triple() {
        Some((x, y, z)) => Some(
            match kind {
                TupleKind::Vector => Tuple::vector_new(x, y, z),
                TupleKind::Point => Tuple::point_new(x, y, z),
            },
        ),
        None => None,
    }
}

/// The colour that a list of three numbers names.
pub fn destructure_yaml_array_into_colour(array: &Node) -> (r: Option<Colour>)
    ensures
        r == colour_of(*array),
{
    match array.get_triple() {
        Some((r, g, b)) => Some(Colour::new(r, g, b)),
        None => None,
    }
}

fn number_at(node: &Node, k: usize) -> (r: Option<Fixed>)
    ensures
        r == (match node.item(k as int) {
            Some(v) => v.number(),
            None => None,
        }),
{
    match node.get_item(k) {
        Some(v) => parse_number(v),
        None => None,
    }
}

/// The operation that a list names.
pub fn transform_type_and_data(transform: &Node) -> (r: Option<TransformType>)
    ensures
        r == transform_of(*transform),
{
    reveal(transform_of);
    match transform.get_item(0) {
        Some(Node::Text(name)) => {
            let one = number_at(transform, 1);
            let two = number_at(transform, 2);
            let three = number_at(transform, 3);
            let s = name.as_str();
            if same_text(s, "rotate-x") {
                match one {
                    Some(a) => Some(TransformType::RotateX(a)),
                    None => None,
                }
            } else if same_text(s, "rotate-y") {
                match one {
                    Some(a) => Some(TransformType::RotateY(a)),
                    None => None,
                }
            } else if same_text(s, "rotate-z") {
                match one {
                    Some(a) => Some(TransformType::RotateZ(a)),
                    None => None,
                }
            } else if same_text(s, "translate") {
                match (one, two, three) {
                    (Some(x), Some(y), Some(z)) => Some(TransformType::Translate(x, y, z)),
                    _ => None,
                }
            } else if same_text(s, "scale") {
                match (one, two, three) {
                    (Some(x), Some(y), Some(z)) => Some(TransformType::Scale(x, y, z)),
                    _ => None,
                }
            } else {
                None
            }
        },
        _ => None,
    }
}

/// The matrix of an operation.
pub fn transform_matrix(t: TransformType) -> (r: Matrix<4>)
    ensures
        r == matrix_of(t),
{
    reveal(matrix_of);
    match t {
        TransformType::RotateX(a) => rotation_x(a),
        TransformType::RotateY(a) => rotation_y(a),
        TransformType::RotateZ(a) => rotation_z(a),
        TransformType::Scale(x, y, z) => scale(x, y, z),
        TransformType::Translate(x, y, z) => translation(x, y, z),
    }
}

/// The transform that a list of operations names.
#[verifier::loop_isolation(false)]
pub fn parse_transforms(transform_array: &Node) -> (r: Option<Matrix<4>>)
    ensures
        r == transforms_of(*transform_array),
{
    match transform_array {
        Node::Array(ts) => {
            let mut out = Matrix::<4>::identity();
            let mut n: usize = 0;
            while n < ts.len()
                invariant
                    n <= ts@.len(),
                    chained(ts@, n as nat) == Some(out),
                decreases ts@.len() - n,
            {
                match transform_type_and_data(&ts[ts.len() - 1 - n]) {
                    Some(t) => {
                        out = out.mul_matrix(&transform_matrix(t));
                    },
                    None => {
                        proof {
                            assert(chained(ts@, (n + 1) as nat).is_none());
                            lemma_chained_fails(ts@, (n + 1) as nat, ts@.len());
                        }
                        return None;
                    },
                }
                n = n + 1;
            }
            Some(out)
        },
        _ => None,
    }
}

/// Once the operations from some place to the end cannot be read, nor
/// can those from any place before it.
pub proof fn lemma_chained_fails(items: Seq<Node>, n: nat, m: nat)
    requires
        chained(items, n).is_none(),
        n <= m,
    ensures
        chained(items, m).is_none(),
    decreases m,
{
    if n < m {
        lemma_chained_fails(items, n, (m - 1) as nat);
    }
}

fn parse_pattern_parts(pattern_map: &Node) -> (r: Option<(Colour, Colour, Matrix<4>)>)
    ensures
        r == pattern_parts(*pattern_map),
{
    reveal(pattern_parts);
    let a = pattern_map.get_colour_under("colour-a", "color-a");
    let b = pattern_map.get_colour_under("colour-b", "color-b");
    let t = pattern_map.get_field("transform");
    match (a, b, t) {
        (Some(a), Some(b), Some(t)) => match parse_transforms(t) {
            Some(m) => Some((a, b, m)),
            None => None,
        },
        _ => None,
    }
}

/// The pattern that a map names.
pub fn parse_pattern(pattern_map: &Node) -> (r: Option<Pattern>)
    ensures
        r == pattern_of(*pattern_map),
{
    reveal(pattern_of);
    match pattern_map.get_field("type") {
        Some(Node::Text(name)) => match parse_pattern_parts(pattern_map) {
            Some((a, b, m)) => if same_text(name.as_str(), "3d-check") {
                Some(Pattern::Check3D { colour_a: a, colour_b: b, transform: m })
            } else if same_text(name.as_str(), "stripe") {
                Some(Pattern::Stripe { colour_a: a, colour_b: b, transform: m })
            } else {
                None
            },
            None => None,
        },
        _ => None,
    }
}

fn shininess(v: Fixed) -> (r: u32)
    ensures
        r == shininess_of(v),
{
    let whole = v.trunc();
    if whole < 0 {
        0
    } else if whole > 0xffff_ffff {
        0xffff_ffff
    } else {
        whole as u32
    }
}

fn parse_material_colour(material: &Node) -> (r: Option<Colour>)
    ensures
        r == material_colour(*material),
{
    reveal(material_colour);
    if material.get_field("colour").is_none() && material.get_field("color").is_none() {
        Some(Colour::white())
    } else {
        material.get_colour_under("colour", "color")
    }
}

fn parse_material_pattern(material: &Node) -> (r: Option<Option<Pattern>>)
    ensures
        r == material_pattern(*material),
{
    reveal(material_pattern);
    match material.get_field("pattern") {
        Some(p) => match parse_pattern(p) {
            Some(pattern) => Some(Some(pattern)),
            None => None,
        },
        None => Some(None),
    }
}

/// The material that a map names.
pub fn parse_material(material: &Node) -> (r: Option<Material>)
    ensures
        r == material_of(*material),
{
    reveal(material_of);
    let d = Material::default();
    let colour = parse_material_colour(material);
    let ambient = material.get_number_or("ambient", d.ambient);
    let diffuse = material.get_number_or("diffuse", d.diffuse);
    let specular = material.get_number_or("specular", d.specular);
    let shine = material.get_number_or("shininess", Fixed::from_int(200));
    let reflectivity = material.get_number_or("reflectivity", d.reflectivity);
    let transparency = material.get_number_or("transparency", d.transparency);
    let refractive_index = material.get_number_or("refractive_index", d.refractive_index);
    let pattern = parse_material_pattern(material);
    match (
        colour,
        ambient,
        diffuse,
        specular,
        shine,
        reflectivity,
        transparency,
        refractive_index,
        pattern,
    ) {
        (
            Some(colour),
            Some(ambient),
            Some(diffuse),
            Some(specular),
            Some(shine),
            Some(reflectivity),
            Some(transparency),
            Some(refractive_index),
            Some(pattern),
        ) => Some(
            Material {
                colour,
                ambient,
                diffuse,
                specular,
                shininess: shininess(shine),
                reflectivity,
                transparency,
                refractive_index,
                pattern,
            },
        ),
        _ => None,
    }
}

/// The kind of an entity.
pub fn entity_kind(entity: &Node) -> (r: Option<EntityKind>)
    ensures
        r == kind_of(*entity),
{
    reveal(kind_of);
    match entity.get_field("add") {
        Some(Node::Text(kind)) => {
            let s = kind.as_str();
            if same_text(s, "sphere") {
                Some(EntityKind::Sphere)
            } else if same_text(s, "plane") {
                Some(EntityKind::Plane)
            } else if same_text(s, "camera") {
                Some(EntityKind::Camera)
            } else if same_text(s, "light") {
                Some(EntityKind::Light)
            } else {
                None
            }
        },
        _ => None,
    }
}

fn parse_shape_transform(shape_yaml: &Node) -> (r: Option<Matrix<4>>)
    ensures
        r == shape_transform(*shape_yaml),
{
    reveal(shape_transform);
    match shape_yaml.get_field("transform") {
        Some(t) => match t {
            Node::Array(_) => parse_transforms(t),
            _ => Some(Matrix::<4>::identity()),
        },
        None => Some(Matrix::<4>::identity()),
    }
}

fn parse_shape_material(shape_yaml: &Node) -> (r: Option<Material>)
    ensures
        r == shape_material(*shape_yaml),
{
    reveal(shape_material);
    match shape_yaml.get_field("material") {
        Some(m) => match m {
            Node::Hash(_) => parse_material(m),
            _ => Some(Material::default()),
        },
        None => Some(Material::default()),
    }
}

/// The shape that an entity names.
pub fn shape_from_config(shape_yaml: &Node) -> (r: Option<Shape>)
    ensures
        r == shape_of(*shape_yaml),
{
    reveal(shape_of);
    let transform = parse_shape_transform(shape_yaml);
    let material = parse_shape_material(shape_yaml);
    let kind = entity_kind(shape_yaml);
    match (transform, material, kind) {
        (Some(transform), Some(material), Some(EntityKind::Sphere)) => Some(
            Shape { material, transform, shape: ShapeType::Sphere },
        ),
        (Some(transform), Some(material), Some(EntityKind::Plane)) => Some(
            Shape { material, transform, shape: ShapeType::Plane },
        ),
        _ => None,
    }
}

/// The light that an entity names.
pub fn light_from_config(light_yaml: &Node) -> (r: Option<PointLight>)
    ensures
        r == light_of(*light_yaml),
{
    reveal(light_of);
    match (light_yaml.get_field("at"), light_yaml.get_field("intensity")) {
        (Some(at), Some(intensity)) => match (
            destructure_yaml_array_into_tuple(at, TupleKind::Point),
            destructure_yaml_array_into_colour(intensity),
        ) {
            (Some(position), Some(colour)) => Some(PointLight::new(colour, position)),
            _ => None,
        },
        _ => None,
    }
}

fn parse_camera_view(cam_yaml: &Node) -> (r: Option<(Tuple, Tuple, Tuple)>)
    ensures
        r == camera_view(*cam_yaml),
{
    reveal(camera_view);
    match (cam_yaml.get_field("from"), cam_yaml.get_field("to"), cam_yaml.get_field("up")) {
        (Some(from), Some(to), Some(up)) => match (
            destructure_yaml_array_into_tuple(from, TupleKind::Point),
            destructure_yaml_array_into_tuple(to, TupleKind::Point),
            destructure_yaml_array_into_tuple(up, TupleKind::Vector),
        ) {
            (Some(f), Some(t), Some(u)) => Some((f, t, u)),
            _ => None,
        },
        _ => None,
    }
}

fn size(v: i64) -> (r: Option<usize>)
    ensures
        r == size_of(v),
{
    if v < 0 {
        None
    } else if v as u64 > usize::MAX as u64 {
        None
    } else {
        Some(v as usize)
    }
}

fn parse_camera_sizes(cam_yaml: &Node) -> (r: Option<(usize, usize, Fixed)>)
    ensures
        r == camera_sizes(*cam_yaml),
{
    reveal(camera_sizes);
    match (
        cam_yaml.get_field("width"),
        cam_yaml.get_field("height"),
        cam_yaml.get_field("field-of-view"),
    ) {
        (Some(Node::Integer(w)), Some(Node::Integer(h)), Some(Node::Real(f))) => match (
            size(*w),
            size(*h),
            parse_decimal(f.as_str()),
        ) {
            (Some(width), Some(height), Some(fov)) => Some((width, height, fov)),
            _ => None,
        },
        _ => None,
    }
}

/// The camera that an entity names.
pub fn camera_from_config(cam_yaml: &Node) -> (r: Option<Camera>)
    ensures
        r == camera_of(*cam_yaml),
{
    reveal(camera_of);
    match (parse_camera_view(cam_yaml), parse_camera_sizes(cam_yaml)) {
        (Some((from, to, up)), Some((width, height, fov))) => Some(
            Camera::new(width, height, fov, view_transform(&from, &to, &up)),
        ),
        _ => None,
    }
}

/// Reads a scene: the world and the camera that the document names, or
/// nothing where one of its entities cannot be read.
#[verifier::loop_isolation(false)]
pub fn read_config(config: &Node) -> (r: Option<(World, Camera)>)
    ensures
        match scene_of(*config) {
            Some((scene, camera)) => r.is_some() && r.unwrap().0@ == scene && r.unwrap().1
                == camera,
            None => r.is_none(),
        },
{
    let mut w = World::new();
    let mut c = Camera::default();
    proof {
        assert(w@.objects =~= Seq::<Shape>::empty());
        assert(w@.lights =~= Seq::<PointLight>::empty());
    }
    match config {
        Node::Array(entities) => {
            let mut n: usize = 0;
            while n < entities.len()
                invariant
                    n <= entities@.len(),
                    entities_of(entities@, n as nat) == Some((w@, c)),
                decreases entities@.len() - n,
            {
                let node = &entities[n];
                let ghost so_far = (w@, c);
                match node {
                    Node::Hash(_) => {
                        match entity_kind(node) {
                            Some(EntityKind::Camera) => match camera_from_config(node) {
                                Some(camera) => {
                                    c = camera;
                                },
                                None => {
                                    proof {
                                        assert(with_entity(so_far, *node).is_none());
                                        assert(entities_of(entities@, (n + 1) as nat).is_none());
                                        lemma_entities_fail(
                                            entities@,
                                            (n + 1) as nat,
                                            entities@.len(),
                                        );
                                    }
                                    return None;
                                },
                            },
                            Some(EntityKind::Light) => match light_from_config(node) {
                                Some(light) => {
                                    w.lights.push(light);
                                },
                                None => {
                                    proof {
                                        assert(with_entity(so_far, *node).is_none());
                                        assert(entities_of(entities@, (n + 1) as nat).is_none());
                                        lemma_entities_fail(
                                            entities@,
                                            (n + 1) as nat,
                                            entities@.len(),
                                        );
                                    }
                                    return None;
                                },
                            },
                            Some(_) => match shape_from_config(node) {
                                Some(shape) => {
                                    w.objects.push(shape);
                                },
                                None => {
                                    proof {
                                        assert(with_entity(so_far, *node).is_none());
                                        assert(entities_of(entities@, (n + 1) as nat).is_none());
                                        lemma_entities_fail(
                                            entities@,
                                            (n + 1) as nat,
                                            entities@.len(),
                                        );
                                    }
                                    return None;
                                },
                            },
                            None => {
                                proof {
                                    assert(with_entity(so_far, *node).is_none());
                                    assert(entities_of(entities@, (n + 1) as nat).is_none());
                                    lemma_entities_fail(entities@, (n + 1) as nat, entities@.len());
                                }
                                return None;
                            },
                        }
                    },
                    _ => {},
                }
                proof {
                    assert(with_entity(so_far, *node) == Some((w@, c)));
                }
                n = n + 1;
            }
            Some((w, c))
        },
        _ => Some((w, c)),
    }
}

/// Once the first entities cannot be read, nor can any more of them.
pub proof fn lemma_entities_fail(entities: Seq<Node>, n: nat, m: nat)
    requires
        entities_of(entities, n).is_none(),
        n <= m,
    ensures
        entities_of(entities, m).is_none(),
    decreases m,
{
    if n < m {
        lemma_entities_fail(entities, n, (m - 1) as nat);
    }
}

/// The world and the camera that the document names.
pub fn parse_config(config: &Node) -> (r: (World, Camera))
    requires
        scene_of(*config).is_some(),
    ensures
        r.0@ == scene_of(*config).unwrap().0,
        r.1 == scene_of(*config).unwrap().1,
{
    read_config(config).unwrap()
}

} // verus!
