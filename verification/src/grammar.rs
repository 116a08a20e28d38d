//! The grammar of scene descriptions, as the tokens under which a scene
//! tree is written, and what the parser makes of them.
//!
//! ```text
//! scene    := "scene" NAME "{" object* "}"
//! object   := TYPE NAME "{" property* "}"
//! property := "." NAME "=" value ("," | before "}")
//! value    := scalar | "(" scalar ("," scalar)* ")"
//! scalar   := NUMBER | IDENTIFIER | STRING
//! ```
use crate::error::ParseErrorView;
use crate::machine::{lemma_step_consumes, rank, scalar, scene_keyword, Machine, Step};
use crate::scene::{
    lemma_type_read_back, name_of_type, type_named, ExpressionView, ObjectView, PropertyView,
    SceneView,
};
use crate::constructor::scene_of;
use crate::tokeniser::{tokens_from, TokenView};
use vstd::prelude::*;

verus! {

/// A number, an identifier or a string.
pub open spec fn is_scalar(value: ExpressionView) -> bool {
    value is Number || value is Identifier || value is String
}

/// A scalar, or a group that holds scalars only.
pub open spec fn is_flat(value: ExpressionView) -> bool {
    is_scalar(value) || (value is Group && forall|i: int|
        0 <= i < value->Group_0.len() ==> is_scalar(#[trigger] value->Group_0[i]))
}

/// A value that the grammar can write: flat, and not a group of nothing.
pub open spec fn is_value(value: ExpressionView) -> bool {
    is_flat(value) && (value is Group ==> value->Group_0.len() > 0)
}

/// The token under which a scalar is written.
pub open spec fn scalar_token(value: ExpressionView) -> TokenView {
    match value {
        ExpressionView::Number(text) => TokenView::Number(text),
        ExpressionView::Identifier(text) => TokenView::Identifier(text),
        ExpressionView::String(text) => TokenView::String(text),
        _ => TokenView::Unknown,
    }
}

/// Scalars written one after the other with a comma between each two.
pub open spec fn items_tokens(items: Seq<ExpressionView>) -> Seq<TokenView>
    decreases items.len(),
{
    if items.len() == 0 {
        Seq::empty()
    } else if items.len() == 1 {
        seq![scalar_token(items[0])]
    } else {
        seq![scalar_token(items[0]), TokenView::Comma] + items_tokens(items.skip(1))
    }
}

/// A value as it is written: a scalar alone, a group between `(` and `)`.
pub open spec fn value_tokens(value: ExpressionView) -> Seq<TokenView> {
    match value {
        ExpressionView::Group(items) => seq![TokenView::LParen] + items_tokens(items)
            + seq![TokenView::RParen],
        _ => seq![scalar_token(value)],
    }
}

/// A property as it is written, without the comma behind it.
pub open spec fn property_tokens(property: PropertyView) -> Seq<TokenView> {
    seq![TokenView::Dot, TokenView::Identifier(property.name), TokenView::Equal] + value_tokens(
        property.value,
    )
}

/// Properties written one after the other with a comma between each two;
/// with `trailing`, a comma stands behind the last one too.
pub open spec fn properties_tokens(properties: Seq<PropertyView>, trailing: bool) -> Seq<TokenView>
    decreases properties.len(),
{
    if properties.len() == 0 {
        Seq::empty()
    } else if properties.len() == 1 {
        property_tokens(properties[0]) + if trailing {
            seq![TokenView::Comma]
        } else {
            Seq::empty()
        }
    } else {
        property_tokens(properties[0]) + seq![TokenView::Comma] + properties_tokens(
            properties.skip(1),
            trailing,
        )
    }
}

/// An object as it is written: its type, its name and its properties
/// between `{` and `}`.
pub open spec fn object_tokens(object: ObjectView, trailing: bool) -> Seq<TokenView> {
    seq![
        TokenView::Identifier(name_of_type(object.obj_type)),
        TokenView::Identifier(object.name),
        TokenView::LBrace,
    ] + properties_tokens(object.properties, trailing) + seq![TokenView::RBrace]
}

/// Objects written one after the other. `trailing` says of each whether a
/// comma stands behind its last property.
pub open spec fn objects_tokens(objects: Seq<ObjectView>, trailing: Seq<bool>) -> Seq<TokenView>
    decreases objects.len(),
{
    if objects.len() == 0 {
        Seq::empty()
    } else {
        object_tokens(objects[0], trailing[0]) + objects_tokens(
            objects.skip(1),
            trailing.skip(1),
        )
    }
}

/// A scene as it is written: the scene keyword, its name and its objects
/// between `{` and `}`.
pub open spec fn scene_tokens(scene: SceneView, trailing: Seq<bool>) -> Seq<TokenView> {
    seq![
        TokenView::Identifier(scene_keyword()),
        TokenView::Identifier(scene.name),
        TokenView::LBrace,
    ] + objects_tokens(scene.objects, trailing) + seq![TokenView::RBrace]
}

/// Every property of the object has a value that the grammar can write.
pub open spec fn object_written(object: ObjectView) -> bool {
    forall|j: int|
        0 <= j < object.properties.len() ==> is_value(#[trigger] object.properties[j].value)
}

/// Every property of every object has a value that the grammar can write.
pub open spec fn objects_written(objects: Seq<ObjectView>) -> bool {
    forall|i: int| 0 <= i < objects.len() ==> object_written(#[trigger] objects[i])
}

impl Machine {
    /// The state after `count` tokens were taken off the stream.
    pub open spec fn skip(self, count: nat) -> Machine {
        Machine {
            tokens: self.tokens.skip(count as int),
            position: self.position + count,
            scene: self.scene,
        }
    }
}

impl SceneView {
    /// The scene with more properties at the end of its last object.
    pub open spec fn with_properties(self, properties: Seq<PropertyView>) -> SceneView {
        if self.objects.len() > 0 {
            let last = self.objects.last();
            SceneView {
                name: self.name,
                objects: self.objects.update(
                    self.objects.len() - 1,
                    ObjectView {
                        name: last.name,
                        obj_type: last.obj_type,
                        properties: last.properties + properties,
                    },
                ),
            }
        } else {
            self
        }
    }

    /// The scene with more objects at the end.
    pub open spec fn with_objects(self, objects: Seq<ObjectView>) -> SceneView {
        SceneView { name: self.name, objects: self.objects + objects }
    }
}

/// A stream that starts with `first` gives it as its next token, and the
/// rest is what stands behind it.
pub proof fn lemma_first(m: Machine, first: TokenView, rest: Seq<TokenView>)
    requires
        m.tokens == seq![first] + rest,
    ensures
        m.peek() == first,
        m.pop() == m.skip(1),
        m.skip(1).tokens == rest,
{
    assert(m.tokens.skip(1) =~= rest);
}

/// A group whose items are written with a comma between each two is read
/// as those items, as many and in that order, behind the items read before.
pub proof fn lemma_group_read(
    m: Machine,
    read: Seq<ExpressionView>,
    items: Seq<ExpressionView>,
    rest: Seq<TokenView>,
)
    requires
        items.len() > 0,
        forall|i: int| 0 <= i < items.len() ==> is_scalar(#[trigger] items[i]),
        m.tokens == items_tokens(items) + seq![TokenView::RParen] + rest,
    ensures
        m.group(read) == (
            m.skip(items_tokens(items).len() + 1),
            Ok::<ExpressionView, ParseErrorView>(ExpressionView::Group(read + items)),
        ),
        m.skip(items_tokens(items).len() + 1).tokens == rest,
    decreases items.len(),
{
    let item = items[0];
    let written = items_tokens(items);
    assert(is_scalar(item));
    assert(scalar(scalar_token(item)) == Ok::<ExpressionView, ParseErrorView>(item));
    if items.len() == 1 {
        assert(m.tokens =~= seq![scalar_token(item)] + (seq![TokenView::RParen] + rest));
        lemma_first(m, scalar_token(item), seq![TokenView::RParen] + rest);
        let behind = m.pop();
        lemma_first(behind, TokenView::RParen, rest);
        assert(read.push(item) =~= read + items);
        assert(behind.pop().tokens =~= m.skip(2).tokens);
        assert(behind.group(read.push(item)) == (
            behind.pop(),
            Ok::<ExpressionView, ParseErrorView>(ExpressionView::Group(read.push(item))),
        ));
    } else {
        let tail = items.skip(1);
        let after = items_tokens(tail) + seq![TokenView::RParen] + rest;
        assert(m.tokens =~= seq![scalar_token(item)] + (seq![TokenView::Comma] + after));
        lemma_first(m, scalar_token(item), seq![TokenView::Comma] + after);
        let behind = m.pop();
        lemma_first(behind, TokenView::Comma, after);
        let next = behind.pop();
        assert forall|i: int| 0 <= i < tail.len() implies is_scalar(#[trigger] tail[i]) by {
            assert(tail[i] == items[i + 1]);
        }
        lemma_group_read(next, read.push(item), tail, rest);
        assert(read.push(item) + tail =~= read + items);
        assert(written.len() == items_tokens(tail).len() + 2);
        assert(next.skip(items_tokens(tail).len() + 1).tokens =~= m.skip(
            written.len() + 1,
        ).tokens);
    }
}

/// A value is read back from the tokens under which it is written.
pub proof fn lemma_value_read(m: Machine, value: ExpressionView, rest: Seq<TokenView>)
    requires
        is_value(value),
        m.tokens == value_tokens(value) + rest,
    ensures
        m.expression() == (
            m.skip(value_tokens(value).len()),
            Ok::<ExpressionView, ParseErrorView>(value),
        ),
        m.skip(value_tokens(value).len()).tokens == rest,
        value_tokens(value).len() > 0,
{
    match value {
        ExpressionView::Group(items) => {
            let after = items_tokens(items) + seq![TokenView::RParen] + rest;
            assert(m.tokens =~= seq![TokenView::LParen] + after);
            lemma_first(m, TokenView::LParen, after);
            let behind = m.pop();
            lemma_group_read(behind, Seq::empty(), items, rest);
            assert(Seq::<ExpressionView>::empty() + items =~= items);
            assert(behind.skip(items_tokens(items).len() + 1).tokens =~= m.skip(
                value_tokens(value).len(),
            ).tokens);
        },
        _ => {
            assert(m.tokens =~= seq![scalar_token(value)] + rest);
            lemma_first(m, scalar_token(value), rest);
        },
    }
}

/// Adding no property leaves a scene as it is; a property that is added
/// without a value and then given one is added whole; and properties can
/// be added in two parts or all at once.
pub proof fn lemma_with_properties(
    scene: SceneView,
    first: PropertyView,
    more: Seq<PropertyView>,
)
    ensures
        scene.with_properties(Seq::empty()) == scene,
        scene.with_property(PropertyView { name: first.name, value: ExpressionView::Empty })
            .with_value(first.value) == scene.with_properties(seq![first]),
        scene.with_properties(seq![first]).with_properties(more) == scene.with_properties(
            seq![first] + more,
        ),
{
    let n = scene.objects.len() as int;
    if n > 0 {
        let last = scene.objects.last();
        assert(last.properties + Seq::<PropertyView>::empty() =~= last.properties);
        assert(scene.with_properties(Seq::empty()).objects =~= scene.objects);
        let pending = scene.with_property(
            PropertyView { name: first.name, value: ExpressionView::Empty },
        );
        let set = pending.with_value(first.value);
        assert(set.objects[n - 1].properties =~= last.properties + seq![first]);
        assert(set.objects =~= scene.with_properties(seq![first]).objects);
        assert(last.properties + seq![first] + more =~= last.properties + (seq![first] + more));
        assert(scene.with_properties(seq![first]).with_properties(more).objects
            =~= scene.with_properties(seq![first] + more).objects);
    }
}

/// From `PropertyName`, the head of a property, `.`, its name and `=`,
/// adds the property to the last object without a value.
pub proof fn lemma_name_read(m: Machine, name: Seq<char>, rest: Seq<TokenView>)
    requires
        m.tokens == seq![TokenView::Dot, TokenView::Identifier(name), TokenView::Equal] + rest,
    ensures
        m.property_name() == (
            Machine {
                tokens: rest,
                position: m.position + 3,
                scene: m.scene.with_property(
                    PropertyView { name, value: ExpressionView::Empty },
                ),
            },
            Ok::<Step, ParseErrorView>(Step::PropertyValue),
        ),
{
    assert(m.tokens =~= seq![TokenView::Dot] + (seq![TokenView::Identifier(name)] + (
    seq![TokenView::Equal] + rest)));
    lemma_first(
        m,
        TokenView::Dot,
        seq![TokenView::Identifier(name)] + (seq![TokenView::Equal] + rest),
    );
    lemma_first(m.pop(), TokenView::Identifier(name), seq![TokenView::Equal] + rest);
    lemma_first(m.pop().pop(), TokenView::Equal, rest);
}

/// From `PropertyValue`, a value as it is written, with a comma behind it
/// or in front of `}`, becomes the value of the last property.
pub proof fn lemma_value_set(m: Machine, value: ExpressionView, comma: bool, rest: Seq<TokenView>)
    requires
        is_value(value),
        m.tokens == value_tokens(value) + if comma {
            seq![TokenView::Comma] + rest
        } else {
            rest
        },
        !comma ==> rest.len() > 0 && rest[0] == TokenView::RBrace,
    ensures
        m.property_value() == (
            Machine {
                tokens: rest,
                position: m.position + value_tokens(value).len() + if comma {
                    1nat
                } else {
                    0nat
                },
                scene: m.scene.with_value(value),
            },
            Ok::<Step, ParseErrorView>(Step::PropertyName),
        ),
{
    let after = if comma {
        seq![TokenView::Comma] + rest
    } else {
        rest
    };
    lemma_value_read(m, value, after);
    let behind = m.skip(value_tokens(value).len());
    if comma {
        lemma_first(behind, TokenView::Comma, rest);
    }
}

/// From `PropertyName`, one property as it is written, with a comma
/// behind it or in front of `}`, is read into the last object.
pub proof fn lemma_property_read(
    m: Machine,
    property: PropertyView,
    comma: bool,
    rest: Seq<TokenView>,
)
    requires
        is_value(property.value),
        m.tokens == property_tokens(property) + if comma {
            seq![TokenView::Comma] + rest
        } else {
            rest
        },
        !comma ==> rest.len() > 0 && rest[0] == TokenView::RBrace,
    ensures
        m.run(Step::PropertyName) == (Machine {
            tokens: rest,
            position: m.position + property_tokens(property).len() + if comma {
                1nat
            } else {
                0nat
            },
            scene: m.scene.with_properties(seq![property]),
        }).run(Step::PropertyName),
{
    let value = value_tokens(property.value);
    let after = value + if comma {
        seq![TokenView::Comma] + rest
    } else {
        rest
    };
    assert(m.tokens =~= seq![
        TokenView::Dot,
        TokenView::Identifier(property.name),
        TokenView::Equal,
    ] + after);
    lemma_name_read(m, property.name, after);
    let named = Machine {
        tokens: after,
        position: m.position + 3,
        scene: m.scene.with_property(
            PropertyView { name: property.name, value: ExpressionView::Empty },
        ),
    };
    assert(m.run(Step::PropertyName) == named.run(Step::PropertyValue));
    lemma_value_set(named, property.value, comma, rest);
    let next = Machine {
        tokens: rest,
        position: named.position + value.len() + if comma {
            1nat
        } else {
            0nat
        },
        scene: named.scene.with_value(property.value),
    };
    assert(named.run(Step::PropertyValue) == next.run(Step::PropertyName));
    lemma_with_properties(m.scene, property, Seq::empty());
}

/// From `PropertyName`, the properties of an object as they are written,
/// and the `}` behind them, are read into the last object, as many and in
/// that order; the machine goes on in `ObjectEnd` behind the `}`.
pub proof fn lemma_properties_read(
    m: Machine,
    properties: Seq<PropertyView>,
    trailing: bool,
    rest: Seq<TokenView>,
)
    requires
        forall|j: int| 0 <= j < properties.len() ==> is_value(#[trigger] properties[j].value),
        m.tokens == properties_tokens(properties, trailing) + seq![TokenView::RBrace] + rest,
    ensures
        m.run(Step::PropertyName) == (Machine {
            tokens: rest,
            position: m.position + properties_tokens(properties, trailing).len() + 1,
            scene: m.scene.with_properties(properties),
        }).run(Step::ObjectEnd),
    decreases properties.len(),
{
    if properties.len() == 0 {
        assert(m.tokens =~= seq![TokenView::RBrace] + rest);
        lemma_first(m, TokenView::RBrace, rest);
        lemma_with_properties(
            m.scene,
            PropertyView { name: Seq::empty(), value: ExpressionView::Empty },
            Seq::empty(),
        );
        assert(m.run(Step::PropertyName) == m.pop().run(Step::ObjectEnd));
    } else {
        let first = properties[0];
        let more = properties.skip(1);
        let comma = !(properties.len() == 1 && !trailing);
        let left = properties_tokens(more, trailing) + seq![TokenView::RBrace] + rest;
        assert(properties.len() == 1 ==> properties_tokens(more, trailing).len() == 0);
        assert(m.tokens =~= property_tokens(first) + if comma {
            seq![TokenView::Comma] + left
        } else {
            left
        });
        assert(!comma ==> left[0] == TokenView::RBrace);
        lemma_property_read(m, first, comma, left);
        let next = Machine {
            tokens: left,
            position: m.position + property_tokens(first).len() + if comma {
                1nat
            } else {
                0nat
            },
            scene: m.scene.with_properties(seq![first]),
        };
        assert forall|j: int| 0 <= j < more.len() implies is_value(
            #[trigger] more[j].value,
        ) by {
            assert(more[j] == properties[j + 1]);
        }
        lemma_properties_read(next, more, trailing, rest);
        lemma_with_properties(m.scene, first, more);
        assert(seq![first] + more =~= properties);
    }
}

/// Adding objects to a scene, one first or all at once.
pub proof fn lemma_with_objects(scene: SceneView, first: ObjectView, more: Seq<ObjectView>)
    ensures
        scene.with_object(
            ObjectView { name: first.name, obj_type: first.obj_type, properties: Seq::empty() },
        ).with_properties(first.properties) == scene.with_objects(seq![first]),
        scene.with_objects(seq![first]).with_objects(more) == scene.with_objects(
            seq![first] + more,
        ),
{
    let opened = scene.with_object(
        ObjectView { name: first.name, obj_type: first.obj_type, properties: Seq::empty() },
    );
    let n = scene.objects.len() as int;
    assert(Seq::<PropertyView>::empty() + first.properties =~= first.properties);
    assert(opened.with_properties(first.properties).objects =~= scene.objects + seq![first]);
    assert(scene.objects + seq![first] + more =~= scene.objects + (seq![first] + more));
}

/// From `Object`, objects as they are written, and the `}` that closes the
/// scene behind them, are read into the scene, as many and in that order,
/// and the parse ends well.
pub proof fn lemma_objects_read(m: Machine, objects: Seq<ObjectView>, trailing: Seq<bool>)
    requires
        objects.len() > 0,
        trailing.len() == objects.len(),
        objects_written(objects),
        m.tokens == objects_tokens(objects, trailing) + seq![TokenView::RBrace],
    ensures
        m.run(Step::Object) == Ok::<SceneView, ParseErrorView>(m.scene.with_objects(objects)),
    decreases objects.len(),
{
    let first = objects[0];
    let more = objects.skip(1);
    let written = properties_tokens(first.properties, trailing[0]);
    let rest = objects_tokens(more, trailing.skip(1)) + seq![TokenView::RBrace];
    let type_token = TokenView::Identifier(name_of_type(first.obj_type));
    let body = written + seq![TokenView::RBrace] + rest;
    assert(object_written(first));
    assert(m.tokens =~= seq![type_token] + (seq![TokenView::Identifier(first.name)] + (
    seq![TokenView::LBrace] + body)));
    lemma_first(
        m,
        type_token,
        seq![TokenView::Identifier(first.name)] + (seq![TokenView::LBrace] + body),
    );
    lemma_first(m.pop(), TokenView::Identifier(first.name), seq![TokenView::LBrace] + body);
    lemma_first(m.pop().pop(), TokenView::LBrace, body);
    lemma_type_read_back(first.obj_type);
    let opened = m.pop().pop().pop().with_scene(
        m.scene.with_object(
            ObjectView { name: first.name, obj_type: first.obj_type, properties: Seq::empty() },
        ),
    );
    assert(m.object() == (opened, Ok::<Step, ParseErrorView>(Step::PropertyName)));
    assert(m.run(Step::Object) == opened.run(Step::PropertyName));
    lemma_properties_read(opened, first.properties, trailing[0], rest);
    lemma_with_objects(m.scene, first, more);
    let closed = Machine {
        tokens: rest,
        position: opened.position + written.len() + 1,
        scene: m.scene.with_objects(seq![first]),
    };
    assert(opened.run(Step::PropertyName) == closed.run(Step::ObjectEnd));
    if more.len() == 0 {
        assert(rest =~= seq![TokenView::RBrace] + Seq::<TokenView>::empty());
        lemma_first(closed, TokenView::RBrace, Seq::empty());
        assert(closed.run(Step::ObjectEnd) == closed.pop().run(Step::End));
        assert(seq![first] =~= objects);
    } else {
        assert(rest[0] == TokenView::Identifier(name_of_type(more[0].obj_type)));
        assert(closed.object_end() == (closed, Ok::<Step, ParseErrorView>(Step::Object)));
        assert(closed.run(Step::ObjectEnd) == closed.run(Step::Object));
        assert forall|i: int| 0 <= i < more.len() implies object_written(#[trigger] more[i]) by {
            assert(more[i] == objects[i + 1]);
        }
        lemma_objects_read(closed, more, trailing.skip(1));
        assert(seq![first] + more =~= objects);
    }
}

/// Every scene with at least one object, written under the grammar with or
/// without a comma behind the last property of each object, is read back
/// as it was written: the parse succeeds, and the objects of the source
/// come behind those that the tree held before, as many and in the order
/// of the source, each with its properties and their values.
pub proof fn lemma_scene_read(m: Machine, scene: SceneView, trailing: Seq<bool>)
    requires
        scene.objects.len() > 0,
        trailing.len() == scene.objects.len(),
        objects_written(scene.objects),
        m.tokens == scene_tokens(scene, trailing),
    ensures
        m.run(Step::Start) == Ok::<SceneView, ParseErrorView>(
            m.scene.named(scene.name).with_objects(scene.objects),
        ),
{
    let body = objects_tokens(scene.objects, trailing) + seq![TokenView::RBrace];
    let keyword = TokenView::Identifier(scene_keyword());
    let name = TokenView::Identifier(scene.name);
    assert(m.tokens =~= seq![keyword] + (seq![name] + (seq![TokenView::LBrace] + body)));
    lemma_first(m, keyword, seq![name] + (seq![TokenView::LBrace] + body));
    lemma_first(m.pop(), name, seq![TokenView::LBrace] + body);
    lemma_first(m.pop().pop(), TokenView::LBrace, body);
    let named = m.pop().pop().with_scene(m.scene.named(scene.name));
    assert(m.start() == (named, Ok::<Step, ParseErrorView>(Step::Scene)));
    assert(m.run(Step::Start) == named.run(Step::Scene));
    assert(named.run(Step::Scene) == named.pop().run(Step::Object));
    lemma_objects_read(named.pop(), scene.objects, trailing);
}

/// Two properties written with no comma between them are refused: the
/// `.` of the second one stands where a comma was expected.
pub proof fn lemma_missing_comma(m: Machine, property: PropertyView, rest: Seq<TokenView>)
    requires
        is_value(property.value),
        m.tokens == property_tokens(property) + seq![TokenView::Dot] + rest,
    ensures
        m.run(Step::PropertyName) == Err::<SceneView, ParseErrorView>(
            ParseErrorView::UnexpectedToken {
                expected: TokenView::Comma,
                actual: TokenView::Dot,
                position: m.position + property_tokens(property).len(),
            },
        ),
{
    let value = value_tokens(property.value);
    let after = value + (seq![TokenView::Dot] + rest);
    assert(m.tokens =~= seq![
        TokenView::Dot,
        TokenView::Identifier(property.name),
        TokenView::Equal,
    ] + after);
    lemma_name_read(m, property.name, after);
    let named = Machine {
        tokens: after,
        position: m.position + 3,
        scene: m.scene.with_property(
            PropertyView { name: property.name, value: ExpressionView::Empty },
        ),
    };
    assert(m.run(Step::PropertyName) == named.run(Step::PropertyValue));
    lemma_value_read(named, property.value, seq![TokenView::Dot] + rest);
    lemma_first(named.skip(value.len()), TokenView::Dot, rest);
    assert(named.property_value().1 is Err);
}

/// Properties written one after the other, where `commas` says of each
/// whether a comma stands behind it.
pub open spec fn properties_between(properties: Seq<PropertyView>, commas: Seq<bool>) -> Seq<
    TokenView,
>
    decreases properties.len(),
{
    if properties.len() == 0 {
        Seq::empty()
    } else {
        property_tokens(properties[0]) + if commas[0] {
            seq![TokenView::Comma]
        } else {
            Seq::empty()
        } + properties_between(properties.skip(1), commas.skip(1))
    }
}

/// The parse of an object fails wherever a comma is missing between two of
/// its properties, however many properties stand before them.
pub proof fn lemma_comma_needed(
    m: Machine,
    properties: Seq<PropertyView>,
    commas: Seq<bool>,
    missing: int,
    rest: Seq<TokenView>,
)
    requires
        commas.len() == properties.len(),
        forall|j: int| 0 <= j < properties.len() ==> is_value(#[trigger] properties[j].value),
        0 <= missing < properties.len() - 1,
        !commas[missing],
        m.tokens == properties_between(properties, commas) + rest,
    ensures
        m.run(Step::PropertyName) is Err,
        m.run(Step::PropertyName)->Err_0 is UnexpectedToken,
        m.run(Step::PropertyName)->Err_0->expected == TokenView::Comma,
        m.run(Step::PropertyName)->Err_0->actual == TokenView::Dot,
    decreases properties.len(),
{
    let first = properties[0];
    let more = properties.skip(1);
    let left = properties_between(more, commas.skip(1)) + rest;
    assert(is_value(first.value));
    assert(more[0] == properties[1]);
    assert(left[0] == TokenView::Dot);
    if !commas[0] {
        assert(m.tokens =~= property_tokens(first) + seq![TokenView::Dot] + left.skip(1));
        lemma_missing_comma(m, first, left.skip(1));
    } else {
        assert(m.tokens =~= property_tokens(first) + (seq![TokenView::Comma] + left));
        lemma_property_read(m, first, true, left);
        let next = Machine {
            tokens: left,
            position: m.position + property_tokens(first).len() + 1,
            scene: m.scene.with_properties(seq![first]),
        };
        assert forall|j: int| 0 <= j < more.len() implies is_value(
            #[trigger] more[j].value,
        ) by {
            assert(more[j] == properties[j + 1]);
        }
        assert(commas.skip(1)[missing - 1] == commas[missing]);
        lemma_comma_needed(next, more, commas.skip(1), missing - 1, rest);
    }
}

/// A name that is not the name of an object type is refused as the type of
/// an object, and reported by that name.
pub proof fn lemma_unknown_type(m: Machine, name: Seq<char>)
    requires
        m.peek() == TokenView::Identifier(name),
        type_named(name) is None,
    ensures
        m.object().1 == Err::<Step, ParseErrorView>(ParseErrorView::InvalidObjectType { name }),
        m.run(Step::Object) == Err::<SceneView, ParseErrorView>(
            ParseErrorView::InvalidObjectType { name },
        ),
{
}

/// Every property of the scene has a flat value; none is without a value.
pub open spec fn settled(scene: SceneView) -> bool {
    forall|i: int, j: int|
        0 <= i < scene.objects.len() && 0 <= j < scene.objects[i].properties.len() ==> is_flat(
            #[trigger] scene.objects[i].properties[j].value,
        )
}

/// Every property of the scene has a flat value, but for the last property
/// of the last object, which may be without one.
pub open spec fn settled_but_last(scene: SceneView) -> bool {
    forall|i: int, j: int|
        0 <= i < scene.objects.len() && 0 <= j < scene.objects[i].properties.len() && !(i
            == scene.objects.len() - 1 && j == scene.objects[i].properties.len() - 1)
            ==> is_flat(#[trigger] scene.objects[i].properties[j].value)
}

/// What holds of the tree in each step: a property waits for its value in
/// `PropertyValue` only.
pub open spec fn settled_in(scene: SceneView, step: Step) -> bool {
    if step == Step::PropertyValue {
        settled_but_last(scene)
    } else {
        settled(scene)
    }
}

/// A group that was read holds the items read before and scalars behind.
pub proof fn lemma_group_flat(m: Machine, items: Seq<ExpressionView>)
    requires
        forall|i: int| 0 <= i < items.len() ==> is_scalar(#[trigger] items[i]),
        m.group(items).1 is Ok,
    ensures
        is_flat(m.group(items).1->Ok_0),
        m.group(items).1->Ok_0 is Group,
    decreases m.tokens.len(),
{
    let token = m.peek();
    let behind = m.pop();
    if token != TokenView::RParen {
        if let Ok(item) = scalar(token) {
            let read = items.push(item);
            assert forall|i: int| 0 <= i < read.len() implies is_scalar(#[trigger] read[i]) by {
                if i < items.len() {
                    assert(read[i] == items[i]);
                }
            }
            if behind.peek() == TokenView::RParen {
                lemma_group_flat(behind, read);
            } else if behind.peek() == TokenView::Comma {
                lemma_group_flat(behind.pop(), read);
            }
        }
    }
}

/// A step that succeeds keeps the tree settled as its step asks.
pub proof fn lemma_step_settles(m: Machine, step: Step)
    requires
        settled_in(m.scene, step),
        m.step(step).1 is Ok,
    ensures
        settled_in(m.step(step).0.scene, m.step(step).1->Ok_0),
{
    let next = m.step(step).0.scene;
    match step {
        Step::Object => {
            assert forall|i: int, j: int|
                0 <= i < next.objects.len() && 0 <= j < next.objects[i].properties.len()
                implies is_flat(#[trigger] next.objects[i].properties[j].value) by {
                assert(next.objects[i] == m.scene.objects[i]);
            }
        },
        Step::PropertyName => {
            if m.step(step).1->Ok_0 == Step::PropertyValue {
                assert forall|i: int, j: int|
                    0 <= i < next.objects.len() && 0 <= j < next.objects[i].properties.len()
                        && !(i == next.objects.len() - 1 && j == next.objects[i].properties.len()
                        - 1) implies is_flat(#[trigger] next.objects[i].properties[j].value) by {
                    if m.scene.objects.len() > 0 {
                        assert(next.objects[i].properties[j]
                            == m.scene.objects[i].properties[j]);
                    }
                }
            }
        },
        Step::PropertyValue => {
            let value = m.expression().1->Ok_0;
            crate::machine::lemma_expression_consumes(m);
            if m.peek() == TokenView::LParen {
                lemma_group_flat(m.pop(), Seq::empty());
            }
            assert(is_flat(value));
            assert(next == m.scene.with_value(value));
            assert forall|i: int, j: int|
                0 <= i < next.objects.len() && 0 <= j < next.objects[i].properties.len()
                implies is_flat(#[trigger] next.objects[i].properties[j].value) by {
                if !(i == next.objects.len() - 1 && j == next.objects[i].properties.len() - 1) {
                    assert(next.objects[i].properties[j] == m.scene.objects[i].properties[j]);
                }
            }
        },
        _ => {},
    }
}

/// From any step, a parse that succeeds on a tree that is settled as the
/// step asks ends in a settled tree.
pub proof fn lemma_run_settles(m: Machine, step: Step)
    requires
        settled_in(m.scene, step),
        m.run(step) is Ok,
    ensures
        settled(m.run(step)->Ok_0),
    decreases m.tokens.len(), rank(step),
{
    if step != Step::End {
        lemma_step_consumes(m, step);
        lemma_step_settles(m, step);
        lemma_run_settles(m.step(step).0, m.step(step).1->Ok_0);
    }
}

/// After a parse that succeeds no property is without a value: each value
/// is a scalar or a group of scalars.
pub proof fn lemma_parsed_values(m: Machine)
    requires
        settled(m.scene),
        m.run(Step::Start) is Ok,
    ensures
        settled(m.run(Step::Start)->Ok_0),
        forall|i: int, j: int|
            0 <= i < m.run(Step::Start)->Ok_0.objects.len() && 0 <= j < m.run(
                Step::Start,
            )->Ok_0.objects[i].properties.len() ==> !(#[trigger] m.run(
                Step::Start,
            )->Ok_0.objects[i].properties[j].value is Empty),
{
    lemma_run_settles(m, Step::Start);
}

/// Every text whose tokens are those of a scene that is written under the
/// grammar is read as that scene, however its tokens are laid out.
pub proof fn lemma_text_read(text: Seq<char>, scene: SceneView, trailing: Seq<bool>)
    requires
        scene.objects.len() > 0,
        trailing.len() == scene.objects.len(),
        objects_written(scene.objects),
        tokens_from(text, 0) == Ok::<Seq<TokenView>, ParseErrorView>(
            scene_tokens(scene, trailing),
        ),
    ensures
        scene_of(text) == Ok::<SceneView, ParseErrorView>(scene),
{
    let m = Machine {
        tokens: scene_tokens(scene, trailing),
        position: 0,
        scene: SceneView { name: "scene"@, objects: Seq::empty() },
    };
    lemma_scene_read(m, scene, trailing);
    assert(m.scene.named(scene.name).with_objects(scene.objects).objects =~= scene.objects);
}

} // verus!
