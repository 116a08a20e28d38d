//! The scene tree: a named scene of typed objects, each with its
//! properties in the order in which they were written.
//!
//! Names need not be unique. Two objects, or two properties of one object,
//! may have the same name; the tree keeps both, each in its place.
use crate::chars::is_word;
use vstd::prelude::*;

verus! {

/// The kinds of object that a scene can hold.
#[derive(Debug, Clone, Copy, PartialEq, Eq, Structural)]
pub enum ObjectType {
    Camera,
    Light,
    Physics,
    Material,
    Controller,
    Sphere,
    Rectangle,
    Image,
    Active,
}

/// The value of a property: a scalar or a flat group of scalars. `Empty`
/// stands in a property whose value has not been read yet.
#[derive(Debug, PartialEq, Eq)]
pub enum Expression {
    Number(String),
    Identifier(String),
    String(String),
    Group(Vec<Expression>),
    Empty,
}

/// A name and its value.
#[derive(Debug, PartialEq, Eq)]
pub struct Property {
    pub name: String,
    pub value: Expression,
}

/// A named object of one of the object types, with its properties in
/// source order.
#[derive(Debug, PartialEq, Eq)]
pub struct Object {
    pub name: String,
    pub obj_type: ObjectType,
    pub properties: Vec<Property>,
}

/// The root of the tree: a name and the objects in source order.
#[derive(Debug, PartialEq, Eq)]
pub struct Scene {
    pub name: String,
    pub objects: Vec<Object>,
}

/// What the generator is handed: the scene.
#[derive(Debug, PartialEq, Eq)]
pub struct Engine {
    pub scene: Scene,
}

/// A value with its texts as sequences of characters.
pub enum ExpressionView {
    Number(Seq<char>),
    Identifier(Seq<char>),
    String(Seq<char>),
    Group(Seq<ExpressionView>),
    Empty,
}

/// A property over the views of its name and value.
pub struct PropertyView {
    pub name: Seq<char>,
    pub value: ExpressionView,
}

/// An object over the views of its name and properties.
pub struct ObjectView {
    pub name: Seq<char>,
    pub obj_type: ObjectType,
    pub properties: Seq<PropertyView>,
}

/// A scene over the views of its name and objects.
pub struct SceneView {
    pub name: Seq<char>,
    pub objects: Seq<ObjectView>,
}

impl View for Expression {
    type V = ExpressionView;

    open spec fn view(&self) -> ExpressionView
        decreases self,
    {
        match self {
            Expression::Number(text) => ExpressionView::Number(text@),
            Expression::Identifier(text) => ExpressionView::Identifier(text@),
            Expression::String(text) => ExpressionView::String(text@),
            Expression::Group(items) => ExpressionView::Group(
                Seq::new(
                    items@.len(),
                    |i: int|
                        if 0 <= i < items@.len() {
                            items@[i]@
                        } else {
                            ExpressionView::Empty
                        },
                ),
            ),
            Expression::Empty => ExpressionView::Empty,
        }
    }
}

/// The views of a sequence of expressions, in order.
pub open spec fn expression_views(items: Seq<Expression>) -> Seq<ExpressionView> {
    Seq::new(items.len(), |i: int| items[i]@)
}

impl View for Property {
    type V = PropertyView;

    open spec fn view(&self) -> PropertyView {
        PropertyView { name: self.name@, value: self.value@ }
    }
}

/// The views of a sequence of properties, in order.
pub open spec fn property_views(properties: Seq<Property>) -> Seq<PropertyView> {
    Seq::new(properties.len(), |i: int| properties[i]@)
}

impl View for Object {
    type V = ObjectView;

    open spec fn view(&self) -> ObjectView {
        ObjectView {
            name: self.name@,
            obj_type: self.obj_type,
            properties: property_views(self.properties@),
        }
    }
}

/// The views of a sequence of objects, in order.
pub open spec fn object_views(objects: Seq<Object>) -> Seq<ObjectView> {
    Seq::new(objects.len(), |i: int| objects[i]@)
}

impl View for Scene {
    type V = SceneView;

    open spec fn view(&self) -> SceneView {
        SceneView { name: self.name@, objects: object_views(self.objects@) }
    }
}

impl View for Engine {
    type V = SceneView;

    open spec fn view(&self) -> SceneView {
        self.scene@
    }
}

/// A value as it is written into generated source: a scalar by its text,
/// a group in parentheses with `, ` behind each item, nothing for `Empty`.
pub open spec fn rendered(value: ExpressionView) -> Seq<char>
    decreases value, 0nat,
{
    match value {
        ExpressionView::Number(text) => text,
        ExpressionView::Identifier(text) => text,
        ExpressionView::String(text) => text,
        ExpressionView::Group(items) => "("@ + rendered_items(items, items.len()) + ")"@,
        ExpressionView::Empty => Seq::empty(),
    }
}

/// The first `count` items as they are written, each with `, ` behind it.
pub open spec fn rendered_items(items: Seq<ExpressionView>, count: nat) -> Seq<char>
    decreases items, count,
{
    if count == 0 || count > items.len() {
        Seq::empty()
    } else {
        rendered_items(items, (count - 1) as nat) + rendered(items[count - 1]) + ", "@
    }
}

impl Expression {
    /// The value as text for generated source.
    pub fn render(&self) -> (r: String)
        ensures
            r@ == rendered(self@),
        decreases self,
    {
        match self {
            Expression::Number(text) => text.clone(),
            Expression::Identifier(text) => text.clone(),
            Expression::String(text) => text.clone(),
            Expression::Group(items) => {
                let mut inner = String::new();
                let mut i: usize = 0;
                while i < items.len()
                    invariant
                        i <= items.len(),
                        *self == Expression::Group(*items),
                        inner@ == rendered_items(self@->Group_0, i as nat),
                    decreases items.len() - i,
                {
                    let item = items[i].render();
                    inner.append(item.as_str());
                    inner.append(", ");
                    i = i + 1;
                }
                let mut text = "(".to_owned();
                text.append(inner.as_str());
                text.append(")");
                text
            },
            Expression::Empty => String::new(),
        }
    }
}

/// A copy of a value, item by item.
fn copy_of(value: &Expression) -> (r: Expression)
    ensures
        r@ == value@,
    decreases value,
{
    match value {
        Expression::Number(text) => Expression::Number(text.clone()),
        Expression::Identifier(text) => Expression::Identifier(text.clone()),
        Expression::String(text) => Expression::String(text.clone()),
        Expression::Group(items) => {
            let mut copies: Vec<Expression> = Vec::new();
            let mut i: usize = 0;
            while i < items.len()
                invariant
                    i <= items.len(),
                    decreases_to!(value => items),
                    copies@.len() == i,
                    forall|k: int| 0 <= k < i ==> (#[trigger] copies@[k])@ == items@[k]@,
                decreases items.len() - i,
            {
                let copy = copy_of(&items[i]);
                copies.push(copy);
                i = i + 1;
            }
            proof {
                lemma_group_view(copies);
                lemma_group_view(*items);
                assert(expression_views(copies@) =~= expression_views(items@));
            }
            Expression::Group(copies)
        },
        Expression::Empty => Expression::Empty,
    }
}

impl Clone for Expression {
    fn clone(&self) -> (r: Self)
        ensures
            r@ == self@,
    {
        copy_of(self)
    }
}

/// A group seen through its items.
pub proof fn lemma_group_view(items: Vec<Expression>)
    ensures
        Expression::Group(items)@ == ExpressionView::Group(expression_views(items@)),
{
    assert(Expression::Group(items)@->Group_0 =~= expression_views(items@));
}

/// The object type that a name in an object header stands for, if any.
pub open spec fn type_named(name: Seq<char>) -> Option<ObjectType> {
    if name == "Camera"@ {
        Some(ObjectType::Camera)
    } else if name == "Light"@ {
        Some(ObjectType::Light)
    } else if name == "Physics"@ {
        Some(ObjectType::Physics)
    } else if name == "Material"@ {
        Some(ObjectType::Material)
    } else if name == "Controller"@ {
        Some(ObjectType::Controller)
    } else if name == "Sphere"@ {
        Some(ObjectType::Sphere)
    } else if name == "Rectangle"@ {
        Some(ObjectType::Rectangle)
    } else if name == "Image"@ {
        Some(ObjectType::Image)
    } else if name == "Active"@ {
        Some(ObjectType::Active)
    } else {
        None
    }
}

/// The name under which an object type is written in an object header.
pub open spec fn name_of_type(obj_type: ObjectType) -> Seq<char> {
    match obj_type {
        ObjectType::Camera => "Camera"@,
        ObjectType::Light => "Light"@,
        ObjectType::Physics => "Physics"@,
        ObjectType::Material => "Material"@,
        ObjectType::Controller => "Controller"@,
        ObjectType::Sphere => "Sphere"@,
        ObjectType::Rectangle => "Rectangle"@,
        ObjectType::Image => "Image"@,
        ObjectType::Active => "Active"@,
    }
}

/// The path of the runtime type that stands behind an object type.
pub open spec fn type_path(obj_type: ObjectType) -> Seq<char> {
    match obj_type {
        ObjectType::Camera => "engine.Camera"@,
        ObjectType::Light => "graphics.Light"@,
        ObjectType::Physics => "physics.PhysicsEngine"@,
        ObjectType::Material => "graphics.material.Material"@,
        ObjectType::Controller => "event_handler.EventHandler"@,
        ObjectType::Sphere => "objects.Sphere"@,
        ObjectType::Rectangle => "objects.Rectangle"@,
        ObjectType::Image => "images.Image"@,
        ObjectType::Active => "Active"@,
    }
}

impl ObjectType {
    /// The object type written as `name`, or `None` for any other name.
    pub fn named(name: &String) -> (r: Option<ObjectType>)
        ensures
            r == type_named(name@),
    {
        if is_word(name, "Camera") {
            Some(ObjectType::Camera)
        } else if is_word(name, "Light") {
            Some(ObjectType::Light)
        } else if is_word(name, "Physics") {
            Some(ObjectType::Physics)
        } else if is_word(name, "Material") {
            Some(ObjectType::Material)
        } else if is_word(name, "Controller") {
            Some(ObjectType::Controller)
        } else if is_word(name, "Sphere") {
            Some(ObjectType::Sphere)
        } else if is_word(name, "Rectangle") {
            Some(ObjectType::Rectangle)
        } else if is_word(name, "Image") {
            Some(ObjectType::Image)
        } else if is_word(name, "Active") {
            Some(ObjectType::Active)
        } else {
            None
        }
    }

    /// The path of the runtime type, as text.
    pub fn path(&self) -> (r: String)
        ensures
            r@ == type_path(*self),
    {
        match self {
            ObjectType::Camera => "engine.Camera".to_owned(),
            ObjectType::Light => "graphics.Light".to_owned(),
            ObjectType::Physics => "physics.PhysicsEngine".to_owned(),
            ObjectType::Material => "graphics.material.Material".to_owned(),
            ObjectType::Controller => "event_handler.EventHandler".to_owned(),
            ObjectType::Sphere => "objects.Sphere".to_owned(),
            ObjectType::Rectangle => "objects.Rectangle".to_owned(),
            ObjectType::Image => "images.Image".to_owned(),
            ObjectType::Active => "Active".to_owned(),
        }
    }
}

/// Each object type is read back from the name under which it is written.
pub proof fn lemma_type_read_back(obj_type: ObjectType)
    ensures
        type_named(name_of_type(obj_type)) == Some(obj_type),
{
    reveal_strlit("Camera");
    reveal_strlit("Light");
    reveal_strlit("Physics");
    reveal_strlit("Material");
    reveal_strlit("Controller");
    reveal_strlit("Sphere");
    reveal_strlit("Rectangle");
    reveal_strlit("Image");
    reveal_strlit("Active");
    assert("Camera"@.len() == 6);
    assert("Light"@.len() == 5);
    assert("Physics"@.len() == 7);
    assert("Material"@.len() == 8);
    assert("Controller"@.len() == 10);
    assert("Sphere"@.len() == 6);
    assert("Rectangle"@.len() == 9);
    assert("Image"@.len() == 5);
    assert("Active"@.len() == 6);
    assert("Camera"@[0] == 'C');
    assert("Sphere"@[0] == 'S');
    assert("Active"@[0] == 'A');
    assert("Light"@[0] == 'L');
    assert("Image"@[0] == 'I');
}

} // verus!
