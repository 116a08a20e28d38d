//! The generator: writes a scene tree out as source text for the graphics
//! runtime, one block of lines for each object.
use crate::chars::is_word;
use crate::scene::{
    object_views, property_views, rendered, Engine, Expression, ExpressionView, Object, ObjectType,
    ObjectView, Property, PropertyView, SceneView,
};
use vstd::prelude::*;

verus! {

/// What every generated file opens with.
pub const BEGIN: &'static str = "const z3d = @import(\"root.zig\");
const std = @import(\"std\");

const Vec3 = z3d.math.Vec3(f32);

// Don't make this too big. Ensure HEIGHT == WIDTH
const HEIGHT = 400;
const WIDTH = 400;

pub fn main() !void {
    var arena = std.heap.ArenaAllocator.init(std.heap.page_allocator);
    defer arena.deinit();
    const allocator = arena.allocator();

    var scene_objects = std.ArrayList(z3d.graphics.objects.Object).init(allocator);
    defer scene_objects.deinit();

    var lights = std.ArrayList(z3d.graphics.Light).init(allocator);
    defer lights.deinit();

    var gui_layer = z3d.gui.GUI_Layer.init(allocator);
    defer gui_layer.deinit();
";

/// What every generated file closes with.
pub const END: &'static str = "
    var engine = try z3d.engine.Engine.init(\"Z3D\", 0, 0, WIDTH, HEIGHT, z3d.engine.WindowFlags.default(), scene, allocator);
    defer engine.deinit();

    try engine.mainloop();
}";

/// The value of the last property of that name; `Empty` where no property
/// has the name.
pub open spec fn last_value(properties: Seq<PropertyView>, name: Seq<char>) -> ExpressionView
    decreases properties.len(),
{
    if properties.len() == 0 {
        ExpressionView::Empty
    } else if properties.last().name == name {
        properties.last().value
    } else {
        last_value(properties.drop_last(), name)
    }
}

/// The item of a group at `index`; `Empty` where the value is no group or
/// has no such item.
pub open spec fn item(value: ExpressionView, index: int) -> ExpressionView {
    match value {
        ExpressionView::Group(items) => if 0 <= index < items.len() {
            items[index]
        } else {
            ExpressionView::Empty
        },
        _ => ExpressionView::Empty,
    }
}

/// A group of at least three items.
pub open spec fn is_triple(value: ExpressionView) -> bool {
    value is Group && value->Group_0.len() >= 3
}

/// Every property of that name is a group of at least three items.
pub open spec fn triples(properties: Seq<PropertyView>, name: Seq<char>) -> bool {
    forall|i: int|
        0 <= i < properties.len() && (#[trigger] properties[i]).name == name ==> is_triple(
            properties[i].value,
        )
}

/// Every property of that name is an identifier.
pub open spec fn identifiers(properties: Seq<PropertyView>, name: Seq<char>) -> bool {
    forall|i: int|
        0 <= i < properties.len() && (#[trigger] properties[i]).name == name
            ==> properties[i].value is Identifier
}

/// The identifier `true` or the identifier `false`.
pub open spec fn is_bool(value: ExpressionView) -> bool {
    value is Identifier && (value->Identifier_0 == "true"@ || value->Identifier_0 == "false"@)
}

/// The first three items of a group, with `, ` between them.
pub open spec fn coordinates(value: ExpressionView) -> Seq<char> {
    rendered(item(value, 0)) + ", "@ + rendered(item(value, 1)) + ", "@ + rendered(item(value, 2))
}

/// The lines that put a shape among the objects of the scene.
pub open spec fn shape_lines(shape: Seq<char>, name: Seq<char>) -> Seq<char> {
    "    var obj_"@ + name + " = z3d.graphics.objects.Object{ ."@ + shape + " = "@ + name
        + " };\n"@ + "    z3d.graphics.objects.assigned(&obj_"@ + name + ");\n"@
        + "    try scene_objects.append(obj_"@ + name + ");\n"@
}

/// A sphere: its position, its radius and its material, each as its last
/// property of that name says.
pub open spec fn sphere_text(object: ObjectView) -> Seq<char> {
    "    const "@ + object.name + " = z3d.graphics.objects.Sphere.init("@
        + "@constCast(&Vec3.init("@ + coordinates(last_value(object.properties, "position"@))
        + ")), "@ + rendered(last_value(object.properties, "radius"@)) + ", &"@ + rendered(
        last_value(object.properties, "material"@),
    ) + ");\n"@ + shape_lines("sphere"@, object.name)
}

/// The texture of a material: a colour from a group of three, or a file
/// from the name of an image.
pub open spec fn texture_text(property: PropertyView) -> Seq<char> {
    if property.name == "color"@ {
        " .SOLID_COLOR = z3d.graphics.RGB{ .r = "@ + rendered(item(property.value, 0))
            + ", .g = "@ + rendered(item(property.value, 1)) + ", .b = "@ + rendered(
            item(property.value, 2),
        ) + " }"@
    } else if property.name == "image"@ {
        " .TEXTURE_FILE = "@ + rendered(property.value)
    } else {
        Seq::empty()
    }
}

/// A material, from its one property.
pub open spec fn material_text(object: ObjectView) -> Seq<char> {
    "    const "@ + object.name
        + " = z3d.graphics.material.Material{ .texture = z3d.graphics.material.Texture {"@
        + texture_text(object.properties[0]) + " }};\n"@
}

/// The file of an image between quotes, where its value is a string.
pub open spec fn file_text(value: ExpressionView) -> Seq<char> {
    match value {
        ExpressionView::String(file) => "\""@ + file + "\""@,
        _ => Seq::empty(),
    }
}

/// An image, from its one property.
pub open spec fn image_text(object: ObjectView) -> Seq<char> {
    "    var "@ + object.name + " = try z3d.images.Image.init("@ + file_text(
        object.properties[0].value,
    ) + ");\n"@ + "    defer "@ + object.name + ".deinit();\n"@
}

/// What one property adds to a controller.
pub open spec fn movement_text(property: PropertyView) -> Seq<char> {
    if property.name == "keyboard_movement"@ {
        " .keyboard_movement = "@ + rendered(property.value) + ","@
    } else if property.name == "mouse_movement"@ {
        " .mouse_movement = "@ + rendered(property.value) + ","@
    } else {
        Seq::empty()
    }
}

/// What the properties add to a controller, in their order.
pub open spec fn movements_text(properties: Seq<PropertyView>) -> Seq<char>
    decreases properties.len(),
{
    if properties.len() == 0 {
        Seq::empty()
    } else {
        movements_text(properties.drop_last()) + movement_text(properties.last())
    }
}

/// A controller.
pub open spec fn controller_text(object: ObjectView) -> Seq<char> {
    "    const "@ + object.name + " = z3d.event_handler.EventHandler{"@ + movements_text(
        object.properties,
    ) + " .width = WIDTH, .height = HEIGHT };\n"@
}

/// A camera: its position, its direction and its event handler, each as
/// its last property of that name says.
pub open spec fn camera_text(object: ObjectView) -> Seq<char> {
    "    const "@ + object.name + " = z3d.engine.Camera{"@
        + " .position = &z3d.transform.PositionHandler{ .single = z3d.transform.SinglePointHandler{ .point = @constCast(&Vec3.init("@
        + coordinates(last_value(object.properties, "position"@))
        + ")) , .direction = @constCast(&Vec3.init("@ + coordinates(
        last_value(object.properties, "direction"@),
    ) + ")) } }, .event_handler = &"@ + rendered(last_value(object.properties, "event_handler"@))
        + " };\n"@
}

/// The line that lets gravity act, where the value is `true`.
pub open spec fn gravity_text(name: Seq<char>, gravity: ExpressionView) -> Seq<char> {
    if gravity == ExpressionView::Identifier("true"@) {
        "    "@ + name + ".apply_gravity(null);\n"@
    } else {
        Seq::empty()
    }
}

/// A physics engine on an object of the scene, with or without gravity.
pub open spec fn physics_text(object: ObjectView) -> Seq<char> {
    "    var "@ + object.name + " = z3d.physics.PhysicsEngine.init("@ + "obj_"@ + rendered(
        last_value(object.properties, "object"@),
    ) + ", .{});\n"@ + gravity_text(object.name, last_value(object.properties, "gravity"@))
}

/// What one property adds to a light.
pub open spec fn beam_text(property: PropertyView) -> Seq<char> {
    if property.name == "position"@ {
        ".position = Vec3.init("@ + coordinates(property.value) + "), "@
    } else if property.name == "intensity"@ {
        ".intensity = Vec3.init("@ + coordinates(property.value) + "), "@
    } else {
        Seq::empty()
    }
}

/// What the properties add to a light, in their order.
pub open spec fn beams_text(properties: Seq<PropertyView>) -> Seq<char>
    decreases properties.len(),
{
    if properties.len() == 0 {
        Seq::empty()
    } else {
        beams_text(properties.drop_last()) + beam_text(properties.last())
    }
}

/// A light.
pub open spec fn light_text(object: ObjectView) -> Seq<char> {
    "    const "@ + object.name + " = z3d.graphics.Light{"@ + beams_text(object.properties)
        + "};\n"@ + "    try lights.append("@ + object.name + ");\n"@
}

/// A corner of a rectangle: one coordinate from each of three items.
pub open spec fn corner(x: ExpressionView, y: ExpressionView, z: ExpressionView) -> Seq<char> {
    "Vec3.init("@ + rendered(x) + ", "@ + rendered(y) + ", "@ + rendered(z) + ")"@
}

/// A rectangle: its four corners from the two opposite ones, `v0` and
/// `v1`, then its material and whether it is inverted.
pub open spec fn rectangle_text(object: ObjectView) -> Seq<char> {
    let v0 = last_value(object.properties, "v0"@);
    let v1 = last_value(object.properties, "v1"@);
    "    const "@ + object.name + " = z3d.graphics.objects.Rectangle.init("@ + corner(
        item(v0, 0),
        item(v0, 1),
        item(v0, 2),
    ) + ", "@ + corner(item(v0, 0), item(v1, 1), item(v1, 2)) + ", "@ + corner(
        item(v1, 0),
        item(v1, 1),
        item(v1, 2),
    ) + ", "@ + corner(item(v1, 0), item(v1, 1), item(v0, 2)) + ", &"@ + rendered(
        last_value(object.properties, "material"@),
    ) + ", "@ + rendered(last_value(object.properties, "inverted"@)) + ");\n"@ + shape_lines(
        "rectangle"@,
        object.name,
    )
}

/// The scene that is shown, around the camera that its one property names.
pub open spec fn active_text(object: ObjectView) -> Seq<char> {
    "    const scene = try z3d.engine.Scene.init("@ + rendered(object.properties[0].value)
        + ", &scene_objects, &lights, .{ .ray_casting_options = &z3d.graphics.RayCastingOptions{ .width = WIDTH, .height = HEIGHT, .fov = 90 } }, &gui_layer);\n"@
}

/// A sphere needs each `position` to be a group of three.
pub open spec fn sphere_ready(properties: Seq<PropertyView>) -> bool {
    triples(properties, "position"@)
}

/// The one property of a material is a `color` that is a group of three,
/// an `image` that is an identifier, or any property of another name.
pub open spec fn texture_ready(property: PropertyView) -> bool {
    if property.name == "color"@ {
        is_triple(property.value)
    } else if property.name == "image"@ {
        property.value is Identifier
    } else {
        true
    }
}

/// A material needs exactly one property, of a shape that fits its name.
pub open spec fn material_ready(properties: Seq<PropertyView>) -> bool {
    properties.len() == 1 && texture_ready(properties[0])
}

/// An image needs exactly one property.
pub open spec fn image_ready(properties: Seq<PropertyView>) -> bool {
    properties.len() == 1
}

/// A controller needs each of its two movements to be an identifier.
pub open spec fn controller_ready(properties: Seq<PropertyView>) -> bool {
    identifiers(properties, "keyboard_movement"@) && identifiers(properties, "mouse_movement"@)
}

/// A camera needs each `position` and each `direction` to be a group of
/// three.
pub open spec fn camera_ready(properties: Seq<PropertyView>) -> bool {
    triples(properties, "position"@) && triples(properties, "direction"@)
}

/// A physics engine needs at most two properties, and `gravity` among
/// them as `true` or `false`.
pub open spec fn physics_ready(properties: Seq<PropertyView>) -> bool {
    properties.len() <= 2 && is_bool(last_value(properties, "gravity"@))
}

/// A light needs at most two properties, and each `position` and each
/// `intensity` to be a group of three.
pub open spec fn light_ready(properties: Seq<PropertyView>) -> bool {
    properties.len() <= 2 && triples(properties, "position"@) && triples(
        properties,
        "intensity"@,
    )
}

/// A rectangle needs at most four properties, and each `v0` and each `v1`
/// to be a group of three.
pub open spec fn rectangle_ready(properties: Seq<PropertyView>) -> bool {
    properties.len() <= 4 && triples(properties, "v0"@) && triples(properties, "v1"@)
}

/// The active scene needs exactly one property, an identifier.
pub open spec fn active_ready(properties: Seq<PropertyView>) -> bool {
    properties.len() == 1 && properties[0].value is Identifier
}

/// Whether an object has what its type needs to be written out.
pub open spec fn ready(object: ObjectView) -> bool {
    match object.obj_type {
        ObjectType::Sphere => sphere_ready(object.properties),
        ObjectType::Material => material_ready(object.properties),
        ObjectType::Image => image_ready(object.properties),
        ObjectType::Controller => controller_ready(object.properties),
        ObjectType::Camera => camera_ready(object.properties),
        ObjectType::Physics => physics_ready(object.properties),
        ObjectType::Light => light_ready(object.properties),
        ObjectType::Rectangle => rectangle_ready(object.properties),
        ObjectType::Active => active_ready(object.properties),
    }
}

/// The lines for one object, by its type.
pub open spec fn element_text(object: ObjectView) -> Seq<char> {
    match object.obj_type {
        ObjectType::Sphere => sphere_text(object),
        ObjectType::Material => material_text(object),
        ObjectType::Image => image_text(object),
        ObjectType::Controller => controller_text(object),
        ObjectType::Camera => camera_text(object),
        ObjectType::Physics => physics_text(object),
        ObjectType::Light => light_text(object),
        ObjectType::Rectangle => rectangle_text(object),
        ObjectType::Active => active_text(object),
    }
}

/// The lines for the objects, in their order, an empty line before each.
pub open spec fn elements_text(objects: Seq<ObjectView>) -> Seq<char>
    decreases objects.len(),
{
    if objects.len() == 0 {
        Seq::empty()
    } else {
        elements_text(objects.drop_last()) + "\n"@ + element_text(objects.last())
    }
}

/// Every object of the scene can be written out.
pub open spec fn all_ready(scene: SceneView) -> bool {
    forall|i: int| 0 <= i < scene.objects.len() ==> ready(#[trigger] scene.objects[i])
}

/// The whole generated file.
pub open spec fn scene_text(scene: SceneView) -> Seq<char> {
    BEGIN@ + elements_text(scene.objects) + END@
}

/// The value that a search has found, or `Empty`.
pub open spec fn found_value(found: Option<&Expression>) -> ExpressionView {
    match found {
        Some(value) => value@,
        None => ExpressionView::Empty,
    }
}

/// The last property of that name.
fn find<'a>(properties: &'a Vec<Property>, name: &str) -> (found: Option<&'a Expression>)
    ensures
        found_value(found) == last_value(property_views(properties@), name@),
{
    let ghost views = property_views(properties@);
    let mut i = properties.len();
    assert(views.take(i as int) =~= views);
    while i > 0
        invariant
            i <= properties.len(),
            views == property_views(properties@),
            last_value(views, name@) == last_value(views.take(i as int), name@),
        decreases i,
    {
        i = i - 1;
        assert(views.take(i + 1).drop_last() =~= views.take(i as int));
        if is_word(&properties[i].name, name) {
            return Some(&properties[i].value);
        }
    }
    None
}

/// The item of a group at `index`, if the value is a group with such an
/// item.
fn part<'a>(value: Option<&'a Expression>, index: usize) -> (found: Option<&'a Expression>)
    ensures
        found_value(found) == item(found_value(value), index as int),
{
    match value {
        Some(Expression::Group(items)) => if index < items.len() {
            Some(&items[index])
        } else {
            None
        },
        _ => None,
    }
}

fn show(value: Option<&Expression>) -> (text: String)
    ensures
        text@ == rendered(found_value(value)),
{
    match value {
        Some(value) => value.render(),
        None => String::new(),
    }
}

fn write_coordinates(value: Option<&Expression>) -> (text: String)
    ensures
        text@ == coordinates(found_value(value)),
{
    let mut text = show(part(value, 0));
    text.append(", ");
    text.append(show(part(value, 1)).as_str());
    text.append(", ");
    text.append(show(part(value, 2)).as_str());
    text
}

fn write_corner(x: Option<&Expression>, y: Option<&Expression>, z: Option<&Expression>) -> (text:
    String)
    ensures
        text@ == corner(found_value(x), found_value(y), found_value(z)),
{
    let mut text = "Vec3.init(".to_owned();
    text.append(show(x).as_str());
    text.append(", ");
    text.append(show(y).as_str());
    text.append(", ");
    text.append(show(z).as_str());
    text.append(")");
    text
}

fn write_shape_lines(shape: &str, name: &str) -> (text: String)
    ensures
        text@ == shape_lines(shape@, name@),
{
    let mut text = "    var obj_".to_owned();
    text.append(name);
    text.append(" = z3d.graphics.objects.Object{ .");
    text.append(shape);
    text.append(" = ");
    text.append(name);
    text.append(" };\n");
    text.append("    z3d.graphics.objects.assigned(&obj_");
    text.append(name);
    text.append(");\n");
    text.append("    try scene_objects.append(obj_");
    text.append(name);
    text.append(");\n");
    text
}

/// Whether every property of that name is a group of three items or more.
fn all_triples(properties: &Vec<Property>, name: &str) -> (r: bool)
    ensures
        r == triples(property_views(properties@), name@),
{
    let ghost views = property_views(properties@);
    let mut i: usize = 0;
    while i < properties.len()
        invariant
            i <= properties.len(),
            views == property_views(properties@),
            forall|k: int|
                0 <= k < i && (#[trigger] views[k]).name == name@ ==> is_triple(views[k].value),
        decreases properties.len() - i,
    {
        if is_word(&properties[i].name, name) {
            let fits = match &properties[i].value {
                Expression::Group(items) => items.len() >= 3,
                _ => false,
            };
            if !fits {
                assert(views[i as int].name == name@ && !is_triple(views[i as int].value));
                return false;
            }
        }
        i = i + 1;
    }
    true
}

/// Whether every property of that name is an identifier.
fn all_identifiers(properties: &Vec<Property>, name: &str) -> (r: bool)
    ensures
        r == identifiers(property_views(properties@), name@),
{
    let ghost views = property_views(properties@);
    let mut i: usize = 0;
    while i < properties.len()
        invariant
            i <= properties.len(),
            views == property_views(properties@),
            forall|k: int|
                0 <= k < i && (#[trigger] views[k]).name == name@ ==> views[k].value is Identifier,
        decreases properties.len() - i,
    {
        if is_word(&properties[i].name, name) && !matches!(
            properties[i].value,
            Expression::Identifier(_)
        ) {
            assert(views[i as int].name == name@ && !(views[i as int].value is Identifier));
            return false;
        }
        i = i + 1;
    }
    true
}

/// Holds the scene that is to be written out.
pub struct Transpiler {
    pub engine: Engine,
}

impl Transpiler {
    /// A generator for the scene of `engine`.
    pub fn new(engine: Engine) -> (r: Self)
        ensures
            r.engine == engine,
    {
        Self { engine }
    }

    /// Whether `object` has what its type needs to be written out.
    pub fn accepts(&self, object: &Object) -> (r: bool)
        ensures
            r == ready(object@),
    {
        let properties = &object.properties;
        match object.obj_type {
            ObjectType::Sphere => all_triples(properties, "position"),
            ObjectType::Material => {
                if properties.len() != 1 {
                    return false;
                }
                let property = &properties[0];
                if is_word(&property.name, "color") {
                    match &property.value {
                        Expression::Group(items) => items.len() >= 3,
                        _ => false,
                    }
                } else if is_word(&property.name, "image") {
                    matches!(property.value, Expression::Identifier(_))
                } else {
                    true
                }
            },
            ObjectType::Image => properties.len() == 1,
            ObjectType::Controller => all_identifiers(properties, "keyboard_movement")
                && all_identifiers(properties, "mouse_movement"),
            ObjectType::Camera => all_triples(properties, "position") && all_triples(
                properties,
                "direction",
            ),
            ObjectType::Physics => {
                if properties.len() > 2 {
                    return false;
                }
                match find(properties, "gravity") {
                    Some(Expression::Identifier(text)) => is_word(text, "true") || is_word(
                        text,
                        "false",
                    ),
                    _ => false,
                }
            },
            ObjectType::Light => properties.len() <= 2 && all_triples(properties, "position")
                && all_triples(properties, "intensity"),
            ObjectType::Rectangle => properties.len() <= 4 && all_triples(properties, "v0")
                && all_triples(properties, "v1"),
            ObjectType::Active => properties.len() == 1 && matches!(
                properties[0].value,
                Expression::Identifier(_)
            ),
        }
    }

    /// Whether every object of the scene can be written out.
    pub fn accepts_all(&self) -> (r: bool)
        ensures
            r == all_ready(self.engine@),
    {
        let objects = &self.engine.scene.objects;
        let mut i: usize = 0;
        while i < objects.len()
            invariant
                i <= objects.len(),
                objects == &self.engine.scene.objects,
                forall|k: int| 0 <= k < i ==> ready(#[trigger] self.engine@.objects[k]),
            decreases objects.len() - i,
        {
            if !self.accepts(&objects[i]) {
                assert(!ready(self.engine@.objects[i as int]));
                return false;
            }
            i = i + 1;
        }
        true
    }

    /// The whole generated file: the opening, the lines of each object in
    /// the order of the scene, and the closing.
    pub fn transpile(&self) -> (output: String)
        requires
            all_ready(self.engine@),
        ensures
            output@ == scene_text(self.engine@),
    {
        let objects = &self.engine.scene.objects;
        let ghost views = object_views(objects@);
        let mut elements = String::new();
        let mut i: usize = 0;
        assert(views.take(0) =~= Seq::empty());
        while i < objects.len()
            invariant
                i <= objects.len(),
                objects == &self.engine.scene.objects,
                views == object_views(objects@),
                all_ready(self.engine@),
                elements@ == elements_text(views.take(i as int)),
            decreases objects.len() - i,
        {
            assert(views.take(i + 1).drop_last() =~= views.take(i as int));
            assert(ready(self.engine@.objects[i as int]));
            elements.append("\n");
            elements.append(self.transpile_element(&objects[i]).as_str());
            i = i + 1;
        }
        assert(views.take(i as int) =~= views);
        let mut output = BEGIN.to_owned();
        output.append(elements.as_str());
        output.append(END);
        output
    }

    /// The lines for one object, by its type.
    pub fn transpile_element(&self, object: &Object) -> (output: String)
        requires
            ready(object@),
        ensures
            output@ == element_text(object@),
    {
        match object.obj_type {
            ObjectType::Sphere => self.transpile_sphere(object),
            ObjectType::Material => self.transpile_material(object),
            ObjectType::Image => self.transpile_image(object),
            ObjectType::Controller => self.transpile_controller(object),
            ObjectType::Camera => self.transpile_camera(object),
            ObjectType::Physics => self.transpile_physics(object),
            ObjectType::Light => self.transpile_light(object),
            ObjectType::Rectangle => self.transpile_rectangle(object),
            ObjectType::Active => self.transpile_active(object),
        }
    }

    /// The lines for a sphere.
    pub fn transpile_sphere(&self, object: &Object) -> (output: String)
        requires
            sphere_ready(object@.properties),
        ensures
            output@ == sphere_text(object@),
    {
        let properties = &object.properties;
        let mut output = "    const ".to_owned();
        output.append(object.name.as_str());
        output.append(" = z3d.graphics.objects.Sphere.init(");
        output.append("@constCast(&Vec3.init(");
        output.append(write_coordinates(find(properties, "position")).as_str());
        output.append(")), ");
        output.append(show(find(properties, "radius")).as_str());
        output.append(", &");
        output.append(show(find(properties, "material")).as_str());
        output.append(");\n");
        output.append(write_shape_lines("sphere", object.name.as_str()).as_str());
        output
    }

    /// The line for a material.
    pub fn transpile_material(&self, object: &Object) -> (output: String)
        requires
            material_ready(object@.properties),
        ensures
            output@ == material_text(object@),
    {
        let mut output = "    const ".to_owned();
        output.append(object.name.as_str());
        output.append(
            " = z3d.graphics.material.Material{ .texture = z3d.graphics.material.Texture {",
        );
        let property = &object.properties[0];
        let mut texture = String::new();
        if is_word(&property.name, "color") {
            let value = Some(&property.value);
            texture = " .SOLID_COLOR = z3d.graphics.RGB{ .r = ".to_owned();
            texture.append(show(part(value, 0)).as_str());
            texture.append(", .g = ");
            texture.append(show(part(value, 1)).as_str());
            texture.append(", .b = ");
            texture.append(show(part(value, 2)).as_str());
            texture.append(" }");
        } else if is_word(&property.name, "image") {
            texture = " .TEXTURE_FILE = ".to_owned();
            texture.append(property.value.render().as_str());
        }
        output.append(texture.as_str());
        output.append(" }};\n");
        output
    }

    /// The lines for an image.
    pub fn transpile_image(&self, object: &Object) -> (output: String)
        requires
            image_ready(object@.properties),
        ensures
            output@ == image_text(object@),
    {
        let mut output = "    var ".to_owned();
        output.append(object.name.as_str());
        output.append(" = try z3d.images.Image.init(");
        let mut file = String::new();
        match &object.properties[0].value {
            Expression::String(text) => {
                file = "\"".to_owned();
                file.append(text.as_str());
                file.append("\"");
            },
            _ => {},
        }
        output.append(file.as_str());
        output.append(");\n");
        output.append("    defer ");
        output.append(object.name.as_str());
        output.append(".deinit();\n");
        output
    }

    /// The line for a controller.
    pub fn transpile_controller(&self, object: &Object) -> (output: String)
        requires
            controller_ready(object@.properties),
        ensures
            output@ == controller_text(object@),
    {
        let properties = &object.properties;
        let ghost views = property_views(properties@);
        let mut movements = String::new();
        let mut i: usize = 0;
        assert(views.take(0) =~= Seq::empty());
        while i < properties.len()
            invariant
                i <= properties.len(),
                views == property_views(properties@),
                movements@ == movements_text(views.take(i as int)),
            decreases properties.len() - i,
        {
            assert(views.take(i + 1).drop_last() =~= views.take(i as int));
            let property = &properties[i];
            let mut movement = String::new();
            if is_word(&property.name, "keyboard_movement") {
                movement = " .keyboard_movement = ".to_owned();
                movement.append(property.value.render().as_str());
                movement.append(",");
            } else if is_word(&property.name, "mouse_movement") {
                movement = " .mouse_movement = ".to_owned();
                movement.append(property.value.render().as_str());
                movement.append(",");
            }
            movements.append(movement.as_str());
            i = i + 1;
        }
        assert(views.take(i as int) =~= views);
        let mut output = "    const ".to_owned();
        output.append(object.name.as_str());
        output.append(" = z3d.event_handler.EventHandler{");
        output.append(movements.as_str());
        output.append(" .width = WIDTH, .height = HEIGHT };\n");
        output
    }

    /// The line for a camera.
    pub fn transpile_camera(&self, object: &Object) -> (output: String)
        requires
            camera_ready(object@.properties),
        ensures
            output@ == camera_text(object@),
    {
        let properties = &object.properties;
        let mut output = "    const ".to_owned();
        output.append(object.name.as_str());
        output.append(" = z3d.engine.Camera{");
        output.append(
            " .position = &z3d.transform.PositionHandler{ .single = z3d.transform.SinglePointHandler{ .point = @constCast(&Vec3.init(",
        );
        output.append(write_coordinates(find(properties, "position")).as_str());
        output.append(")) , .direction = @constCast(&Vec3.init(");
        output.append(write_coordinates(find(properties, "direction")).as_str());
        output.append(")) } }, .event_handler = &");
        output.append(show(find(properties, "event_handler")).as_str());
        output.append(" };\n");
        output
    }

    /// The lines for a physics engine.
    pub fn transpile_physics(&self, object: &Object) -> (output: String)
        requires
            physics_ready(object@.properties),
        ensures
            output@ == physics_text(object@),
    {
        let properties = &object.properties;
        let mut output = "    var ".to_owned();
        output.append(object.name.as_str());
        output.append(" = z3d.physics.PhysicsEngine.init(");
        output.append("obj_");
        output.append(show(find(properties, "object")).as_str());
        output.append(", .{});\n");
        let mut gravity = String::new();
        match find(properties, "gravity") {
            Some(value) => {
                if self.evaluate_bool(value) {
                    gravity = "    ".to_owned();
                    gravity.append(object.name.as_str());
                    gravity.append(".apply_gravity(null);\n");
                }
            },
            None => {},
        }
        output.append(gravity.as_str());
        output
    }

    /// The lines for a light.
    pub fn transpile_light(&self, object: &Object) -> (output: String)
        requires
            light_ready(object@.properties),
        ensures
            output@ == light_text(object@),
    {
        let properties = &object.properties;
        let ghost views = property_views(properties@);
        let mut beams = String::new();
        let mut i: usize = 0;
        assert(views.take(0) =~= Seq::empty());
        while i < properties.len()
            invariant
                i <= properties.len(),
                views == property_views(properties@),
                beams@ == beams_text(views.take(i as int)),
            decreases properties.len() - i,
        {
            assert(views.take(i + 1).drop_last() =~= views.take(i as int));
            let property = &properties[i];
            let mut beam = String::new();
            if is_word(&property.name, "position") {
                beam = ".position = Vec3.init(".to_owned();
                beam.append(write_coordinates(Some(&property.value)).as_str());
                beam.append("), ");
            } else if is_word(&property.name, "intensity") {
                beam = ".intensity = Vec3.init(".to_owned();
                beam.append(write_coordinates(Some(&property.value)).as_str());
                beam.append("), ");
            }
            beams.append(beam.as_str());
            i = i + 1;
        }
        assert(views.take(i as int) =~= views);
        let mut output = "    const ".to_owned();
        output.append(object.name.as_str());
        output.append(" = z3d.graphics.Light{");
        output.append(beams.as_str());
        output.append("};\n");
        output.append("    try lights.append(");
        output.append(object.name.as_str());
        output.append(");\n");
        output
    }

    /// The lines for a rectangle.
    pub fn transpile_rectangle(&self, object: &Object) -> (output: String)
        requires
            rectangle_ready(object@.properties),
        ensures
            output@ == rectangle_text(object@),
    {
        let properties = &object.properties;
        let v0 = find(properties, "v0");
        let v1 = find(properties, "v1");
        let mut output = "    const ".to_owned();
        output.append(object.name.as_str());
        output.append(" = z3d.graphics.objects.Rectangle.init(");
        output.append(write_corner(part(v0, 0), part(v0, 1), part(v0, 2)).as_str());
        output.append(", ");
        output.append(write_corner(part(v0, 0), part(v1, 1), part(v1, 2)).as_str());
        output.append(", ");
        output.append(write_corner(part(v1, 0), part(v1, 1), part(v1, 2)).as_str());
        output.append(", ");
        output.append(write_corner(part(v1, 0), part(v1, 1), part(v0, 2)).as_str());
        output.append(", &");
        output.append(show(find(properties, "material")).as_str());
        output.append(", ");
        output.append(show(find(properties, "inverted")).as_str());
        output.append(");\n");
        output.append(write_shape_lines("rectangle", object.name.as_str()).as_str());
        output
    }

    /// The line for the scene that is shown.
    pub fn transpile_active(&self, object: &Object) -> (output: String)
        requires
            active_ready(object@.properties),
        ensures
            output@ == active_text(object@),
    {
        let mut output = "    const scene = try z3d.engine.Scene.init(".to_owned();
        output.append(object.properties[0].value.render().as_str());
        output.append(
            ", &scene_objects, &lights, .{ .ray_casting_options = &z3d.graphics.RayCastingOptions{ .width = WIDTH, .height = HEIGHT, .fov = 90 } }, &gui_layer);\n",
        );
        output
    }

    /// Whether the identifier `true` stands there, not `false`.
    pub fn evaluate_bool(&self, expression: &Expression) -> (r: bool)
        requires
            is_bool(expression@),
        ensures
            r == (expression@ == ExpressionView::Identifier("true"@)),
    {
        match expression {
            Expression::Identifier(text) => is_word(text, "true"),
            _ => false,
        }
    }
}

} // verus!
