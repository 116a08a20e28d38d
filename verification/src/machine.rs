//! What the scene parser computes, as a state machine over sequences: each
//! step maps a state to the next state and to the step that follows.
use crate::error::ParseErrorView;
use crate::scene::{type_named, ExpressionView, ObjectView, PropertyView, SceneView};
use crate::tokeniser::TokenView;
use vstd::prelude::*;

verus! {

/// The states of the parser.
#[derive(Debug, Clone, Copy, PartialEq, Eq, Structural)]
pub enum Step {
    Start,
    Scene,
    Object,
    PropertyName,
    PropertyValue,
    ObjectEnd,
    End,
}

/// The parser's state over sequences: the tokens still to be read, how
/// many were read before them, and the tree built so far.
pub struct Machine {
    pub tokens: Seq<TokenView>,
    pub position: nat,
    pub scene: SceneView,
}

/// The word that opens a scene description.
pub open spec fn scene_keyword() -> Seq<char> {
    "scene"@
}

/// What is reported as expected where an identifier of any text fits.
pub open spec fn any_identifier() -> TokenView {
    TokenView::Identifier(Seq::empty())
}

/// The error for `actual` standing at `position` where `expected` had to
/// stand. `EoF` there means that the input ended too soon.
pub open spec fn mismatch(expected: TokenView, actual: TokenView, position: nat) -> ParseErrorView {
    if actual == TokenView::EoF {
        ParseErrorView::UnexpectedEndOfInput
    } else {
        ParseErrorView::UnexpectedToken { expected, actual, position }
    }
}

/// The scalar value that a token stands for, or the error for a token that
/// cannot stand in a value.
pub open spec fn scalar(token: TokenView) -> Result<ExpressionView, ParseErrorView> {
    match token {
        TokenView::Number(text) => Ok(ExpressionView::Number(text)),
        TokenView::Identifier(text) => Ok(ExpressionView::Identifier(text)),
        TokenView::String(text) => Ok(ExpressionView::String(text)),
        TokenView::EoF => Err(ParseErrorView::UnexpectedEndOfInput),
        other => Err(ParseErrorView::InvalidExpressionToken { token: other }),
    }
}

impl SceneView {
    /// The scene under another name.
    pub open spec fn named(self, name: Seq<char>) -> SceneView {
        SceneView { name, objects: self.objects }
    }

    /// The scene with one more object at the end.
    pub open spec fn with_object(self, object: ObjectView) -> SceneView {
        SceneView { name: self.name, objects: self.objects.push(object) }
    }

    /// The scene with one more property at the end of its last object.
    pub open spec fn with_property(self, property: PropertyView) -> SceneView {
        if self.objects.len() > 0 {
            let last = self.objects.last();
            SceneView {
                name: self.name,
                objects: self.objects.update(
                    self.objects.len() - 1,
                    ObjectView {
                        name: last.name,
                        obj_type: last.obj_type,
                        properties: last.properties.push(property),
                    },
                ),
            }
        } else {
            self
        }
    }

    /// The scene with `value` as the value of the last property of its
    /// last object.
    pub open spec fn with_value(self, value: ExpressionView) -> SceneView {
        if self.objects.len() > 0 && self.objects.last().properties.len() > 0 {
            let last = self.objects.last();
            SceneView {
                name: self.name,
                objects: self.objects.update(
                    self.objects.len() - 1,
                    ObjectView {
                        name: last.name,
                        obj_type: last.obj_type,
                        properties: last.properties.update(
                            last.properties.len() - 1,
                            PropertyView { name: last.properties.last().name, value },
                        ),
                    },
                ),
            }
        } else {
            self
        }
    }
}

impl Machine {
    /// The same stream in front of another tree.
    pub open spec fn with_scene(self, scene: SceneView) -> Machine {
        Machine { tokens: self.tokens, position: self.position, scene }
    }

    /// The next token; `EoF` once the stream is used up.
    pub open spec fn peek(self) -> TokenView {
        if self.tokens.len() > 0 {
            self.tokens[0]
        } else {
            TokenView::EoF
        }
    }

    /// The state after the next token was taken off the stream.
    pub open spec fn pop(self) -> Machine {
        if self.tokens.len() > 0 {
            Machine {
                tokens: self.tokens.skip(1),
                position: self.position + 1,
                scene: self.scene,
            }
        } else {
            self
        }
    }

    /// Takes the next token and fails unless it is `expected`.
    pub open spec fn ensure(self, expected: TokenView) -> (Machine, Result<(), ParseErrorView>) {
        (
            self.pop(),
            if self.peek() == expected {
                Ok(())
            } else {
                Err(mismatch(expected, self.peek(), self.position))
            },
        )
    }

    /// Reads a value: a scalar, or a group if the next token is `(`.
    pub open spec fn expression(self) -> (Machine, Result<ExpressionView, ParseErrorView>) {
        match self.peek() {
            TokenView::LParen => self.pop().group(Seq::empty()),
            token => (self.pop(), scalar(token)),
        }
    }

    /// Reads the rest of a group, behind its `(` and behind `items`, up to
    /// and with its `)`. Each item is a scalar, and between two items
    /// stands a comma; one more comma may stand before the `)`, and a group
    /// may hold nothing. A group inside a group is refused.
    pub open spec fn group(self, items: Seq<ExpressionView>) -> (
        Machine,
        Result<ExpressionView, ParseErrorView>,
    )
        decreases self.tokens.len(),
    {
        let token = self.peek();
        let behind = self.pop();
        if token == TokenView::RParen {
            (behind, Ok(ExpressionView::Group(items)))
        } else {
            match scalar(token) {
                Err(e) => (behind, Err(e)),
                Ok(item) => if behind.peek() == TokenView::RParen {
                    behind.group(items.push(item))
                } else if behind.peek() == TokenView::Comma {
                    behind.pop().group(items.push(item))
                } else {
                    (
                        behind.pop(),
                        Err(mismatch(TokenView::Comma, behind.peek(), behind.position)),
                    )
                },
            }
        }
    }

    /// `Start`: the scene keyword, then the name of the scene.
    pub open spec fn start(self) -> (Machine, Result<Step, ParseErrorView>) {
        let keyword = TokenView::Identifier(scene_keyword());
        let behind = self.pop();
        if self.peek() != keyword {
            (behind, Err(mismatch(keyword, self.peek(), self.position)))
        } else {
            match behind.peek() {
                TokenView::Identifier(name) => (
                    behind.pop().with_scene(self.scene.named(name)),
                    Ok(Step::Scene),
                ),
                other => (behind.pop(), Err(mismatch(any_identifier(), other, behind.position))),
            }
        }
    }

    /// `Scene`: the `{` that opens the scene.
    pub open spec fn scene_header(self) -> (Machine, Result<Step, ParseErrorView>) {
        let (behind, result) = self.ensure(TokenView::LBrace);
        match result {
            Ok(_) => (behind, Ok(Step::Object)),
            Err(e) => (behind, Err(e)),
        }
    }

    /// `Object`: an object type, the name of the object and `{`. The object
    /// joins the scene with no properties yet.
    pub open spec fn object(self) -> (Machine, Result<Step, ParseErrorView>) {
        let first = self.pop();
        match self.peek() {
            TokenView::Identifier(type_text) => match type_named(type_text) {
                None => (first, Err(ParseErrorView::InvalidObjectType { name: type_text })),
                Some(obj_type) => {
                    let second = first.pop();
                    match first.peek() {
                        TokenView::Identifier(name) => {
                            let third = second.pop();
                            if second.peek() == TokenView::LBrace {
                                (
                                    third.with_scene(
                                        self.scene.with_object(
                                            ObjectView { name, obj_type, properties: Seq::empty() },
                                        ),
                                    ),
                                    Ok(Step::PropertyName),
                                )
                            } else {
                                (
                                    third,
                                    Err(
                                        mismatch(
                                            TokenView::LBrace,
                                            second.peek(),
                                            second.position,
                                        ),
                                    ),
                                )
                            }
                        },
                        other => (
                            second,
                            Err(mismatch(any_identifier(), other, first.position)),
                        ),
                    }
                },
            },
            other => (first, Err(mismatch(any_identifier(), other, self.position))),
        }
    }

    /// `PropertyName`: `}` closes the object; otherwise `.`, the name of a
    /// property and `=`. The property joins the last object without a value.
    pub open spec fn property_name(self) -> (Machine, Result<Step, ParseErrorView>) {
        let first = self.pop();
        if self.peek() == TokenView::RBrace {
            (first, Ok(Step::ObjectEnd))
        } else if self.peek() != TokenView::Dot {
            (first, Err(mismatch(TokenView::Dot, self.peek(), self.position)))
        } else {
            let second = first.pop();
            match first.peek() {
                TokenView::Identifier(name) => {
                    let third = second.pop();
                    if second.peek() == TokenView::Equal {
                        (
                            third.with_scene(
                                self.scene.with_property(
                                    PropertyView { name, value: ExpressionView::Empty },
                                ),
                            ),
                            Ok(Step::PropertyValue),
                        )
                    } else {
                        (
                            third,
                            Err(mismatch(TokenView::Equal, second.peek(), second.position)),
                        )
                    }
                },
                other => (second, Err(mismatch(any_identifier(), other, first.position))),
            }
        }
    }

    /// `PropertyValue`: a value for the last property, then a comma unless
    /// `}` follows.
    pub open spec fn property_value(self) -> (Machine, Result<Step, ParseErrorView>) {
        let (behind, value) = self.expression();
        match value {
            Err(e) => (behind, Err(e)),
            Ok(value) => if behind.peek() == TokenView::RBrace {
                (behind.with_scene(self.scene.with_value(value)), Ok(Step::PropertyName))
            } else if behind.peek() == TokenView::Comma {
                (behind.pop().with_scene(self.scene.with_value(value)), Ok(Step::PropertyName))
            } else {
                (behind.pop(), Err(mismatch(TokenView::Comma, behind.peek(), behind.position)))
            },
        }
    }

    /// `ObjectEnd`: `}` closes the scene; anything else starts an object.
    pub open spec fn object_end(self) -> (Machine, Result<Step, ParseErrorView>) {
        if self.peek() == TokenView::RBrace {
            (self.pop(), Ok(Step::End))
        } else {
            (self, Ok(Step::Object))
        }
    }

    /// What the machine does in `step`. In `End` it rests.
    pub open spec fn step(self, step: Step) -> (Machine, Result<Step, ParseErrorView>) {
        match step {
            Step::Start => self.start(),
            Step::Scene => self.scene_header(),
            Step::Object => self.object(),
            Step::PropertyName => self.property_name(),
            Step::PropertyValue => self.property_value(),
            Step::ObjectEnd => self.object_end(),
            Step::End => (self, Ok(Step::End)),
        }
    }

    /// Runs the machine from `step` until it reaches `End` or fails. In
    /// `End` the tree is the result if no token is left; a token that is
    /// left is reported where the end of the input was expected.
    pub open spec fn run(self, step: Step) -> Result<SceneView, ParseErrorView>
        decreases self.tokens.len(), rank(step),
    {
        if step == Step::End {
            if self.tokens.len() == 0 {
                Ok(self.scene)
            } else {
                Err(
                    ParseErrorView::UnexpectedToken {
                        expected: TokenView::EoF,
                        actual: self.tokens[0],
                        position: self.position,
                    },
                )
            }
        } else {
            let (next, result) = self.step(step);
            match result {
                Err(e) => Err(e),
                Ok(follows) => {
                    proof {
                        lemma_step_consumes(self, step);
                    }
                    next.run(follows)
                },
            }
        }
    }
}

/// Orders the two steps between which no token is read.
pub open spec fn rank(step: Step) -> nat {
    if step == Step::ObjectEnd {
        1
    } else {
        0
    }
}

/// Reading a group takes no token back and leaves the tree as it is.
pub proof fn lemma_group_consumes(m: Machine, items: Seq<ExpressionView>)
    ensures
        m.group(items).0.scene == m.scene,
        m.group(items).0.tokens.len() <= m.tokens.len(),
        m.group(items).0.position - m.position == m.tokens.len() - m.group(items).0.tokens.len(),
    decreases m.tokens.len(),
{
    let token = m.peek();
    let behind = m.pop();
    if token != TokenView::RParen {
        if let Ok(item) = scalar(token) {
            if behind.peek() == TokenView::RParen {
                lemma_group_consumes(behind, items.push(item));
            } else if behind.peek() == TokenView::Comma {
                lemma_group_consumes(behind.pop(), items.push(item));
            }
        }
    }
}

/// A value that was read took at least one token, and reading it leaves
/// the tree as it is.
pub proof fn lemma_expression_consumes(m: Machine)
    ensures
        m.expression().0.scene == m.scene,
        m.expression().0.tokens.len() <= m.tokens.len(),
        m.expression().1 is Ok ==> m.expression().0.tokens.len() < m.tokens.len(),
        m.expression().0.position - m.position == m.tokens.len() - m.expression().0.tokens.len(),
{
    if m.peek() == TokenView::LParen {
        lemma_group_consumes(m.pop(), Seq::empty());
    }
}

/// A step that succeeds reads at least one token, but for the step from
/// `ObjectEnd` to `Object`, which reads none. No step but `End` follows
/// itself, and the count of tokens read goes up by what was read.
pub proof fn lemma_step_consumes(m: Machine, step: Step)
    requires
        step != Step::End,
    ensures
        m.step(step).0.tokens.len() <= m.tokens.len(),
        m.step(step).0.position - m.position == m.tokens.len() - m.step(step).0.tokens.len(),
        m.step(step).1 is Ok ==> m.step(step).0.tokens.len() < m.tokens.len() || (
        m.step(step).0.tokens.len() == m.tokens.len() && rank(m.step(step).1->Ok_0) < rank(step)),
{
    if step == Step::PropertyValue {
        lemma_expression_consumes(m);
    }
}

} // verus!
