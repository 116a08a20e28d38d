use zest::constructor::read_scene;
use zest::scene::{Engine, Expression, Object, ObjectType, Property, Scene};
use zest::transpiler::{Transpiler, BEGIN, END};

fn number(text: &str) -> Expression {
    Expression::Number(text.to_string())
}

fn name(text: &str) -> Expression {
    Expression::Identifier(text.to_string())
}

fn group(items: &[&str]) -> Expression {
    Expression::Group(items.iter().map(|item| number(item)).collect())
}

fn property(name: &str, value: Expression) -> Property {
    Property { name: name.to_string(), value }
}

fn object(obj_type: ObjectType, name: &str, properties: Vec<Property>) -> Object {
    Object { name: name.to_string(), obj_type, properties }
}

fn transpiler(objects: Vec<Object>) -> Transpiler {
    Transpiler::new(Engine { scene: Scene { name: "scene".to_string(), objects } })
}

fn empty() -> Transpiler {
    transpiler(vec![])
}

#[test]
fn values_are_rendered_as_their_text() {
    assert_eq!(number("-1.5").render(), "-1.5");
    assert_eq!(name("mat").render(), "mat");
    assert_eq!(Expression::String("a.png".to_string()).render(), "a.png");
    assert_eq!(Expression::Empty.render(), "");
    assert_eq!(group(&["1", "2", "3"]).render(), "(1, 2, 3, )");
    assert_eq!(group(&[]).render(), "()");
    assert_eq!(
        Expression::Group(vec![group(&["1"]), name("x")]).render(),
        "((1, ), x, )"
    );
}

#[test]
fn object_types_have_their_runtime_paths() {
    assert_eq!(ObjectType::Camera.path(), "engine.Camera");
    assert_eq!(ObjectType::Light.path(), "graphics.Light");
    assert_eq!(ObjectType::Physics.path(), "physics.PhysicsEngine");
    assert_eq!(ObjectType::Material.path(), "graphics.material.Material");
    assert_eq!(ObjectType::Controller.path(), "event_handler.EventHandler");
    assert_eq!(ObjectType::Sphere.path(), "objects.Sphere");
    assert_eq!(ObjectType::Rectangle.path(), "objects.Rectangle");
    assert_eq!(ObjectType::Image.path(), "images.Image");
    assert_eq!(ObjectType::Active.path(), "Active");
}

#[test]
fn a_sphere_is_written_out() {
    let sphere = object(
        ObjectType::Sphere,
        "ball",
        vec![
            property("position", group(&["0", "1", "2"])),
            property("radius", number("5")),
            property("material", name("red")),
        ],
    );
    assert!(empty().accepts(&sphere));
    assert_eq!(
        empty().transpile_sphere(&sphere),
        "    const ball = z3d.graphics.objects.Sphere.init(@constCast(&Vec3.init(0, 1, 2)), 5, &red);\n    \
         var obj_ball = z3d.graphics.objects.Object{ .sphere = ball };\n    \
         z3d.graphics.objects.assigned(&obj_ball);\n    \
         try scene_objects.append(obj_ball);\n"
    );
}

#[test]
fn a_sphere_takes_the_last_property_of_each_name() {
    let sphere = object(
        ObjectType::Sphere,
        "s",
        vec![
            property("radius", number("1")),
            property("position", group(&["9", "9", "9", "9"])),
            property("unknown", number("7")),
            property("radius", number("2")),
            property("position", group(&["4", "5", "6", "7"])),
        ],
    );
    assert_eq!(
        empty().transpile_sphere(&sphere),
        "    const s = z3d.graphics.objects.Sphere.init(@constCast(&Vec3.init(4, 5, 6)), 2, &);\n    \
         var obj_s = z3d.graphics.objects.Object{ .sphere = s };\n    \
         z3d.graphics.objects.assigned(&obj_s);\n    \
         try scene_objects.append(obj_s);\n"
    );
}

#[test]
fn a_sphere_without_properties_is_written_with_gaps() {
    let sphere = object(ObjectType::Sphere, "s", vec![]);
    assert!(empty().accepts(&sphere));
    assert_eq!(
        empty().transpile_sphere(&sphere),
        "    const s = z3d.graphics.objects.Sphere.init(@constCast(&Vec3.init(, , )), , &);\n    \
         var obj_s = z3d.graphics.objects.Object{ .sphere = s };\n    \
         z3d.graphics.objects.assigned(&obj_s);\n    \
         try scene_objects.append(obj_s);\n"
    );
}

#[test]
fn a_material_is_written_out() {
    let red = object(
        ObjectType::Material,
        "red",
        vec![property("color", group(&["255", "0", "10"]))],
    );
    assert_eq!(
        empty().transpile_material(&red),
        "    const red = z3d.graphics.material.Material{ .texture = z3d.graphics.material.Texture { \
         .SOLID_COLOR = z3d.graphics.RGB{ .r = 255, .g = 0, .b = 10 } }};\n"
    );
    let wood = object(ObjectType::Material, "wood", vec![property("image", name("img"))]);
    assert_eq!(
        empty().transpile_material(&wood),
        "    const wood = z3d.graphics.material.Material{ .texture = z3d.graphics.material.Texture { \
         .TEXTURE_FILE = img }};\n"
    );
    let plain = object(ObjectType::Material, "plain", vec![property("other", number("1"))]);
    assert_eq!(
        empty().transpile_material(&plain),
        "    const plain = z3d.graphics.material.Material{ .texture = z3d.graphics.material.Texture { }};\n"
    );
}

#[test]
fn an_image_is_written_out() {
    let image = object(
        ObjectType::Image,
        "img",
        vec![property("file", Expression::String("a.png".to_string()))],
    );
    assert_eq!(
        empty().transpile_image(&image),
        "    var img = try z3d.images.Image.init(\"a.png\");\n    defer img.deinit();\n"
    );
    let nameless = object(ObjectType::Image, "img", vec![property("file", name("a"))]);
    assert_eq!(
        empty().transpile_image(&nameless),
        "    var img = try z3d.images.Image.init();\n    defer img.deinit();\n"
    );
}

#[test]
fn a_controller_is_written_out() {
    let controller = object(
        ObjectType::Controller,
        "ctl",
        vec![
            property("mouse_movement", name("false")),
            property("speed", number("3")),
            property("keyboard_movement", name("true")),
        ],
    );
    assert_eq!(
        empty().transpile_controller(&controller),
        "    const ctl = z3d.event_handler.EventHandler{ .mouse_movement = false, \
         .keyboard_movement = true, .width = WIDTH, .height = HEIGHT };\n"
    );
    let bare = object(ObjectType::Controller, "ctl", vec![]);
    assert_eq!(
        empty().transpile_controller(&bare),
        "    const ctl = z3d.event_handler.EventHandler{ .width = WIDTH, .height = HEIGHT };\n"
    );
}

#[test]
fn a_camera_is_written_out() {
    let camera = object(
        ObjectType::Camera,
        "cam",
        vec![
            property("position", group(&["0", "1", "-5"])),
            property("direction", group(&["0", "0", "1"])),
            property("event_handler", name("ctl")),
        ],
    );
    assert_eq!(
        empty().transpile_camera(&camera),
        "    const cam = z3d.engine.Camera{ .position = &z3d.transform.PositionHandler{ .single = \
         z3d.transform.SinglePointHandler{ .point = @constCast(&Vec3.init(0, 1, -5)) , .direction = \
         @constCast(&Vec3.init(0, 0, 1)) } }, .event_handler = &ctl };\n"
    );
}

#[test]
fn a_physics_engine_is_written_out() {
    let falling = object(
        ObjectType::Physics,
        "phys",
        vec![property("gravity", name("true")), property("object", name("ball"))],
    );
    assert_eq!(
        empty().transpile_physics(&falling),
        "    var phys = z3d.physics.PhysicsEngine.init(obj_ball, .{});\n    \
         phys.apply_gravity(null);\n"
    );
    let floating = object(
        ObjectType::Physics,
        "phys",
        vec![property("object", name("ball")), property("gravity", name("false"))],
    );
    assert_eq!(
        empty().transpile_physics(&floating),
        "    var phys = z3d.physics.PhysicsEngine.init(obj_ball, .{});\n"
    );
}

#[test]
fn a_light_is_written_out() {
    let light = object(
        ObjectType::Light,
        "sun",
        vec![
            property("intensity", group(&["1", "1", "0.5"])),
            property("position", group(&["0", "10", "0"])),
        ],
    );
    assert_eq!(
        empty().transpile_light(&light),
        "    const sun = z3d.graphics.Light{.intensity = Vec3.init(1, 1, 0.5), .position = \
         Vec3.init(0, 10, 0), };\n    try lights.append(sun);\n"
    );
}

#[test]
fn a_rectangle_is_written_out() {
    let rectangle = object(
        ObjectType::Rectangle,
        "wall",
        vec![
            property("v0", group(&["1", "2", "3"])),
            property("v1", group(&["4", "5", "6"])),
            property("material", name("red")),
            property("inverted", name("false")),
        ],
    );
    assert_eq!(
        empty().transpile_rectangle(&rectangle),
        "    const wall = z3d.graphics.objects.Rectangle.init(Vec3.init(1, 2, 3), Vec3.init(1, 5, 6), \
         Vec3.init(4, 5, 6), Vec3.init(4, 5, 3), &red, false);\n    \
         var obj_wall = z3d.graphics.objects.Object{ .rectangle = wall };\n    \
         z3d.graphics.objects.assigned(&obj_wall);\n    \
         try scene_objects.append(obj_wall);\n"
    );
}

#[test]
fn the_active_scene_is_written_out() {
    let active = object(ObjectType::Active, "a", vec![property("camera", name("cam"))]);
    assert_eq!(
        empty().transpile_active(&active),
        "    const scene = try z3d.engine.Scene.init(cam, &scene_objects, &lights, .{ \
         .ray_casting_options = &z3d.graphics.RayCastingOptions{ .width = WIDTH, .height = HEIGHT, \
         .fov = 90 } }, &gui_layer);\n"
    );
}

#[test]
fn evaluate_bool_tells_true_from_false() {
    assert!(empty().evaluate_bool(&name("true")));
    assert!(!empty().evaluate_bool(&name("false")));
}

#[test]
fn transpile_element_goes_by_the_type() {
    let light = object(ObjectType::Light, "l", vec![]);
    assert_eq!(empty().transpile_element(&light), empty().transpile_light(&light));
    let controller = object(ObjectType::Controller, "c", vec![]);
    assert_eq!(
        empty().transpile_element(&controller),
        empty().transpile_controller(&controller)
    );
    let camera = object(ObjectType::Camera, "c", vec![]);
    assert_eq!(empty().transpile_element(&camera), empty().transpile_camera(&camera));
}

#[test]
fn the_whole_file_is_opening_objects_and_closing() {
    assert_eq!(empty().transpile(), format!("{}{}", BEGIN, END));
    let scene = read_scene(
        "scene S { Light sun { .position = (0, 10, 0) } Active a { .camera = cam } }".to_string(),
    )
    .unwrap();
    let transpiler = Transpiler::new(Engine { scene });
    assert!(transpiler.accepts_all());
    let light = transpiler.transpile_light(&transpiler.engine.scene.objects[0]);
    let active = transpiler.transpile_active(&transpiler.engine.scene.objects[1]);
    assert_eq!(transpiler.transpile(), format!("{}\n{}\n{}{}", BEGIN, light, active, END));
}

#[test]
fn the_opening_and_the_closing_are_fixed() {
    assert!(BEGIN.starts_with("const z3d = @import(\"root.zig\");\nconst std = @import(\"std\");\n\n"));
    assert!(BEGIN.contains("const HEIGHT = 400;\nconst WIDTH = 400;\n\npub fn main() !void {\n"));
    assert!(BEGIN.ends_with(
        "    var gui_layer = z3d.gui.GUI_Layer.init(allocator);\n    defer gui_layer.deinit();\n"
    ));
    assert_eq!(BEGIN.lines().count(), 22);
    assert!(END.starts_with("\n    var engine = try z3d.engine.Engine.init(\"Z3D\", 0, 0, WIDTH, HEIGHT, "));
    assert!(END.ends_with("    defer engine.deinit();\n\n    try engine.mainloop();\n}"));
}

#[test]
fn objects_that_lack_what_their_type_needs_are_not_accepted() {
    let t = empty();
    assert!(!t.accepts(&object(
        ObjectType::Sphere,
        "s",
        vec![property("position", number("1"))]
    )));
    assert!(!t.accepts(&object(
        ObjectType::Sphere,
        "s",
        vec![property("position", group(&["1", "2"])), property("position", group(&["1", "2", "3"]))]
    )));
    assert!(!t.accepts(&object(ObjectType::Material, "m", vec![])));
    assert!(!t.accepts(&object(
        ObjectType::Material,
        "m",
        vec![property("image", name("a")), property("image", name("b"))]
    )));
    assert!(!t.accepts(&object(
        ObjectType::Material,
        "m",
        vec![property("color", group(&["1", "2"]))]
    )));
    assert!(!t.accepts(&object(
        ObjectType::Material,
        "m",
        vec![property("image", Expression::String("a.png".to_string()))]
    )));
    assert!(t.accepts(&object(ObjectType::Material, "m", vec![property("x", number("1"))])));
    assert!(!t.accepts(&object(ObjectType::Image, "i", vec![])));
    assert!(!t.accepts(&object(
        ObjectType::Controller,
        "c",
        vec![property("mouse_movement", number("1"))]
    )));
    assert!(!t.accepts(&object(
        ObjectType::Camera,
        "c",
        vec![property("direction", name("north"))]
    )));
    assert!(!t.accepts(&object(ObjectType::Physics, "p", vec![])));
    assert!(!t.accepts(&object(
        ObjectType::Physics,
        "p",
        vec![property("gravity", name("yes"))]
    )));
    assert!(!t.accepts(&object(
        ObjectType::Physics,
        "p",
        vec![
            property("gravity", name("true")),
            property("object", name("a")),
            property("object", name("b")),
        ]
    )));
    assert!(!t.accepts(&object(
        ObjectType::Light,
        "l",
        vec![property("intensity", group(&["1"]))]
    )));
    assert!(!t.accepts(&object(
        ObjectType::Rectangle,
        "r",
        vec![property("v0", name("origin"))]
    )));
    assert!(!t.accepts(&object(ObjectType::Active, "a", vec![])));
    assert!(!t.accepts(&object(ObjectType::Active, "a", vec![property("camera", number("1"))])));
    let mixed = transpiler(vec![
        object(ObjectType::Light, "l", vec![]),
        object(ObjectType::Image, "i", vec![]),
    ]);
    assert!(!mixed.accepts_all());
}

#[test]
fn a_scene_with_every_object_type_is_written_out() {
    let text = "scene Room {
        Image tiles { .file = \"tiles.png\" }
        Material floor { .image = tiles }
        Material red { .color = (255, 0, 0), }
        Sphere ball { .position = (0, 1, 5), .radius = 1, .material = red }
        Rectangle wall { .material = floor, .inverted = false }
        Light sun { .position = (0, 10, 0), .intensity = (1, 1, 1) }
        Physics fall { .object = ball, .gravity = true }
        Controller keys { }
        Camera eye { .position = (0, 1, 0), .direction = (0, 0, 1) }
        Active now { .camera = eye }
    }";
    let scene = read_scene(text.to_string()).unwrap();
    assert_eq!(scene.name, "Room");
    assert_eq!(scene.objects.len(), 10);
    let transpiler = Transpiler::new(Engine { scene });
    assert!(transpiler.accepts_all());
    for object in &transpiler.engine.scene.objects {
        assert!(transpiler.accepts(object));
    }
    let expected = [
        "    var tiles = try z3d.images.Image.init(\"tiles.png\");\n    defer tiles.deinit();\n",
        "    const floor = z3d.graphics.material.Material{ .texture = z3d.graphics.material.Texture { .TEXTURE_FILE = tiles }};\n",
        "    const red = z3d.graphics.material.Material{ .texture = z3d.graphics.material.Texture { .SOLID_COLOR = z3d.graphics.RGB{ .r = 255, .g = 0, .b = 0 } }};\n",
        "    const ball = z3d.graphics.objects.Sphere.init(@constCast(&Vec3.init(0, 1, 5)), 1, &red);\n    var obj_ball = z3d.graphics.objects.Object{ .sphere = ball };\n    z3d.graphics.objects.assigned(&obj_ball);\n    try scene_objects.append(obj_ball);\n",
        "    const wall = z3d.graphics.objects.Rectangle.init(Vec3.init(, , ), Vec3.init(, , ), Vec3.init(, , ), Vec3.init(, , ), &floor, false);\n    var obj_wall = z3d.graphics.objects.Object{ .rectangle = wall };\n    z3d.graphics.objects.assigned(&obj_wall);\n    try scene_objects.append(obj_wall);\n",
        "    const sun = z3d.graphics.Light{.position = Vec3.init(0, 10, 0), .intensity = Vec3.init(1, 1, 1), };\n    try lights.append(sun);\n",
        "    var fall = z3d.physics.PhysicsEngine.init(obj_ball, .{});\n    fall.apply_gravity(null);\n",
        "    const keys = z3d.event_handler.EventHandler{ .width = WIDTH, .height = HEIGHT };\n",
        "    const eye = z3d.engine.Camera{ .position = &z3d.transform.PositionHandler{ .single = z3d.transform.SinglePointHandler{ .point = @constCast(&Vec3.init(0, 1, 0)) , .direction = @constCast(&Vec3.init(0, 0, 1)) } }, .event_handler = & };\n",
        "    const scene = try z3d.engine.Scene.init(eye, &scene_objects, &lights, .{ .ray_casting_options = &z3d.graphics.RayCastingOptions{ .width = WIDTH, .height = HEIGHT, .fov = 90 } }, &gui_layer);\n",
    ];
    let mut whole = BEGIN.to_string();
    for (object, lines) in transpiler.engine.scene.objects.iter().zip(expected) {
        assert_eq!(transpiler.transpile_element(object), lines);
        whole.push('\n');
        whole.push_str(lines);
    }
    whole.push_str(END);
    assert_eq!(transpiler.transpile(), whole);
}
