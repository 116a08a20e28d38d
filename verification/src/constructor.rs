//! The scene parser: a state machine that reads a stream of tokens and
//! builds the scene tree, or stops at the first token that does not fit.
use crate::error::{ParseError, ParseErrorView};
use crate::grammar::{lemma_run_settles, settled};
use crate::machine::{
    any_identifier, lemma_expression_consumes, lemma_step_consumes, rank, scalar, Machine,
};
use crate::scene::{expression_views, lemma_group_view, ExpressionView, SceneView};
use crate::tokeniser::{token_views, tokens_from, Token, TokenView, Tokeniser};
use std::collections::VecDeque;
use vstd::prelude::*;

pub use crate::machine::Step;
pub use crate::scene::{Engine, Expression, Object, ObjectType, Property, Scene};

verus! {

/// The parser's state: the tokens still to be read and the tree built so
/// far.
pub struct Constructor {
    pub tokens: VecDeque<Token>,
    pub engine: Engine,
    position: usize,
}

impl View for Constructor {
    type V = Machine;

    closed spec fn view(&self) -> Machine {
        Machine {
            tokens: token_views(self.tokens@),
            position: self.position as nat,
            scene: self.engine.scene@,
        }
    }
}

/// The outcome of a step, with the error seen through its view.
pub open spec fn outcome<T>(r: Result<T, ParseError>) -> Result<T, ParseErrorView> {
    match r {
        Ok(value) => Ok(value),
        Err(e) => Err(e@),
    }
}

/// The outcome of reading a value, seen through its view.
pub open spec fn value_outcome(r: Result<Expression, ParseError>) -> Result<
    ExpressionView,
    ParseErrorView,
> {
    match r {
        Ok(value) => Ok(value@),
        Err(e) => Err(e@),
    }
}

/// The outcome of a whole parse, seen through its view.
pub open spec fn scene_outcome(r: Result<Scene, ParseError>) -> Result<SceneView, ParseErrorView> {
    match r {
        Ok(scene) => Ok(scene@),
        Err(e) => Err(e@),
    }
}

impl Constructor {
    /// The count of tokens read and the tokens still to be read fit a
    /// `usize` together.
    pub closed spec fn wf(&self) -> bool {
        self.position + self.tokens@.len() <= usize::MAX
    }

    /// A parser in front of `tokens`, with an empty scene named `scene`.
    pub fn new(tokens: VecDeque<Token>) -> (r: Self)
        ensures
            r.wf(),
            r@.tokens == token_views(tokens@),
            r@.position == 0,
            r@.scene == (SceneView { name: "scene"@, objects: Seq::empty() }),
    {
        proof {
            vstd::std_specs::vecdeque::axiom_spec_len(&tokens);
        }
        let r = Self {
            tokens,
            engine: Engine { scene: Scene { name: "scene".to_owned(), objects: Vec::new() } },
            position: 0,
        };
        assert(r@.scene.objects =~= Seq::empty());
        r
    }

    /// Takes the next token off the stream. A stream that is used up gives
    /// `EoF`, at every call.
    pub fn pop_front(&mut self) -> (token: Token)
        requires
            old(self).wf(),
        ensures
            final(self).wf(),
            token@ == old(self)@.peek(),
            final(self)@ == old(self)@.pop(),
    {
        match self.tokens.pop_front() {
            Some(token) => {
                self.position = self.position + 1;
                assert(self@.tokens =~= old(self)@.tokens.skip(1));
                token
            },
            None => {
                assert(self@.tokens =~= old(self)@.tokens);
                Token::EoF
            },
        }
    }

    /// The next token, left on the stream.
    pub fn peek(&self) -> (token: Token)
        ensures
            token@ == self@.peek(),
    {
        if self.tokens.len() > 0 {
            self.tokens[0].clone()
        } else {
            Token::EoF
        }
    }

    /// Takes the next token off the stream and fails unless it is `token`.
    pub fn ensure(&mut self, token: Token) -> (r: Result<(), ParseError>)
        requires
            old(self).wf(),
        ensures
            final(self).wf(),
            final(self)@ == old(self)@.ensure(token@).0,
            outcome(r) == old(self)@.ensure(token@).1,
    {
        let position = self.position;
        let actual = self.pop_front();
        if actual.same(&token) {
            Ok(())
        } else {
            Err(mismatch(token, actual, position))
        }
    }

    /// Whether the next token is `token`. The stream is left as it is.
    pub fn at(&self, token: &Token) -> (r: bool)
        ensures
            r == (self@.peek() == token@),
    {
        if self.tokens.len() > 0 {
            self.tokens[0].same(token)
        } else {
            matches!(token, Token::EoF)
        }
    }

    /// Takes the next token off the stream and fails unless it is an
    /// identifier, whose text is the result.
    pub fn identifier(&mut self) -> (r: Result<String, ParseError>)
        requires
            old(self).wf(),
        ensures
            final(self).wf(),
            final(self)@ == old(self)@.pop(),
            match r {
                Ok(name) => old(self)@.peek() == TokenView::Identifier(name@),
                Err(e) => !(old(self)@.peek() is Identifier) && e@ == crate::machine::mismatch(
                    any_identifier(),
                    old(self)@.peek(),
                    old(self)@.position,
                ),
            },
    {
        let position = self.position;
        match self.pop_front() {
            Token::Identifier(name) => Ok(name),
            other => Err(mismatch(Token::Identifier(String::new()), other, position)),
        }
    }

    /// The step in `Start`: the scene keyword, then the name of the scene.
    pub fn start(&mut self) -> (r: Result<Step, ParseError>)
        requires
            old(self).wf(),
        ensures
            final(self).wf(),
            final(self)@ == old(self)@.start().0,
            outcome(r) == old(self)@.start().1,
    {
        match self.ensure(Token::Identifier("scene".to_owned())) {
            Ok(()) => {},
            Err(e) => {
                return Err(e);
            },
        }
        match self.identifier() {
            Ok(name) => {
                self.engine.scene.name = name;
                assert(self@.scene.objects =~= old(self)@.scene.objects);
                Ok(Step::Scene)
            },
            Err(e) => Err(e),
        }
    }

    /// The step in `Scene`: the `{` that opens the scene.
    pub fn scene(&mut self) -> (r: Result<Step, ParseError>)
        requires
            old(self).wf(),
        ensures
            final(self).wf(),
            final(self)@ == old(self)@.scene_header().0,
            outcome(r) == old(self)@.scene_header().1,
    {
        match self.ensure(Token::LBrace) {
            Ok(()) => Ok(Step::Object),
            Err(e) => Err(e),
        }
    }

    /// The step in `Object`: an object type, the name of the object and
    /// `{`. The object joins the scene with no properties yet.
    pub fn object(&mut self) -> (r: Result<Step, ParseError>)
        requires
            old(self).wf(),
        ensures
            final(self).wf(),
            final(self)@ == old(self)@.object().0,
            outcome(r) == old(self)@.object().1,
    {
        let position = self.position;
        let obj_type = match self.pop_front() {
            Token::Identifier(text) => match ObjectType::named(&text) {
                Some(obj_type) => obj_type,
                None => {
                    return Err(ParseError::InvalidObjectType { name: text });
                },
            },
            other => {
                return Err(mismatch(Token::Identifier(String::new()), other, position));
            },
        };
        let name = match self.identifier() {
            Ok(name) => name,
            Err(e) => {
                return Err(e);
            },
        };
        match self.ensure(Token::LBrace) {
            Ok(()) => {},
            Err(e) => {
                return Err(e);
            },
        }
        let object = Object { name, obj_type, properties: Vec::new() };
        assert(object@.properties =~= Seq::empty());
        self.engine.scene.objects.push(object);
        assert(self@.scene.objects =~= old(self)@.scene.with_object(object@).objects);
        Ok(Step::PropertyName)
    }

    /// The step in `PropertyName`: `}` closes the object; otherwise `.`,
    /// the name of a property and `=`. The property joins the last object
    /// without a value.
    pub fn property_name(&mut self) -> (r: Result<Step, ParseError>)
        requires
            old(self).wf(),
            old(self)@.scene.objects.len() > 0,
        ensures
            final(self).wf(),
            final(self)@ == old(self)@.property_name().0,
            outcome(r) == old(self)@.property_name().1,
    {
        if self.at(&Token::RBrace) {
            let _ = self.pop_front();
            return Ok(Step::ObjectEnd);
        }
        match self.ensure(Token::Dot) {
            Ok(()) => {},
            Err(e) => {
                return Err(e);
            },
        }
        let name = match self.identifier() {
            Ok(name) => name,
            Err(e) => {
                return Err(e);
            },
        };
        match self.ensure(Token::Equal) {
            Ok(()) => {},
            Err(e) => {
                return Err(e);
            },
        }
        self.push_property(Property { name, value: Expression::Empty });
        Ok(Step::PropertyValue)
    }

    /// The step in `PropertyValue`: a value for the last property, then a
    /// comma unless `}` follows.
    pub fn property_value(&mut self) -> (r: Result<Step, ParseError>)
        requires
            old(self).wf(),
            old(self)@.scene.objects.len() > 0,
            old(self)@.scene.objects.last().properties.len() > 0,
        ensures
            final(self).wf(),
            final(self)@ == old(self)@.property_value().0,
            outcome(r) == old(self)@.property_value().1,
    {
        let value = match self.expression() {
            Ok(value) => value,
            Err(e) => {
                return Err(e);
            },
        };
        proof {
            lemma_expression_consumes(old(self)@);
        }
        if !self.at(&Token::RBrace) {
            match self.ensure(Token::Comma) {
                Ok(()) => {},
                Err(e) => {
                    return Err(e);
                },
            }
        }
        self.set_value(value);
        Ok(Step::PropertyName)
    }

    /// The scalar value that a token stands for.
    pub fn make_expression(&self, token: &Token) -> (r: Result<Expression, ParseError>)
        ensures
            value_outcome(r) == scalar(token@),
    {
        match token {
            Token::Number(text) => Ok(Expression::Number(text.clone())),
            Token::Identifier(text) => Ok(Expression::Identifier(text.clone())),
            Token::String(text) => Ok(Expression::String(text.clone())),
            Token::EoF => Err(ParseError::UnexpectedEndOfInput),
            other => Err(ParseError::InvalidExpressionToken { token: other.clone() }),
        }
    }

    /// Reads a value: a scalar, or a group of scalars between `(` and `)`.
    pub fn expression(&mut self) -> (r: Result<Expression, ParseError>)
        requires
            old(self).wf(),
        ensures
            final(self).wf(),
            final(self)@ == old(self)@.expression().0,
            value_outcome(r) == old(self)@.expression().1,
    {
        let front = self.pop_front();
        if !matches!(front, Token::LParen) {
            return self.make_expression(&front);
        }
        let mut items: Vec<Expression> = Vec::new();
        assert(expression_views(items@) =~= Seq::empty());
        loop
            invariant
                self.wf(),
                self@.group(expression_views(items@)) == old(self)@.expression(),
            decreases self@.tokens.len(),
        {
            let ghost before = self@;
            let ghost read = expression_views(items@);
            let token = self.pop_front();
            if matches!(token, Token::RParen) {
                proof {
                    lemma_group_view(items);
                }
                return Ok(Expression::Group(items));
            }
            let item = match self.make_expression(&token) {
                Ok(item) => item,
                Err(e) => {
                    return Err(e);
                },
            };
            items.push(item);
            assert(expression_views(items@) =~= read.push(item@));
            if !self.at(&Token::RParen) {
                match self.ensure(Token::Comma) {
                    Ok(()) => {},
                    Err(e) => {
                        return Err(e);
                    },
                }
            }
        }
    }

    /// The step in `ObjectEnd`: `}` closes the scene; anything else starts
    /// an object.
    pub fn object_end(&mut self) -> (r: Result<Step, ParseError>)
        requires
            old(self).wf(),
        ensures
            final(self).wf(),
            final(self)@ == old(self)@.object_end().0,
            outcome(r) == old(self)@.object_end().1,
    {
        if self.at(&Token::RBrace) {
            let _ = self.pop_front();
            Ok(Step::End)
        } else {
            Ok(Step::Object)
        }
    }

    /// Runs the machine from `Start` to `End` and hands out the finished
    /// scene, or the first error. A token left behind the scene is an
    /// error too, so that a parse that succeeds has read every token. In
    /// the finished scene no property is without a value, if none was
    /// before.
    pub fn construct(self) -> (r: Result<Scene, ParseError>)
        requires
            self.wf(),
        ensures
            scene_outcome(r) == self@.run(Step::Start),
            settled(self@.scene) && r is Ok ==> settled(r->Ok_0@),
    {
        proof {
            if settled(self@.scene) && self@.run(Step::Start) is Ok {
                lemma_run_settles(self@, Step::Start);
            }
        }
        let mut machine = self;
        let mut curr = Step::Start;
        while curr != Step::End
            invariant
                machine.wf(),
                machine@.run(curr) == self@.run(Step::Start),
                curr == Step::PropertyName || curr == Step::PropertyValue
                    ==> machine@.scene.objects.len() > 0,
                curr == Step::PropertyValue
                    ==> machine@.scene.objects.last().properties.len() > 0,
            decreases machine@.tokens.len(), rank(curr),
        {
            proof {
                lemma_step_consumes(machine@, curr);
            }
            let result = match curr {
                Step::Start => machine.start(),
                Step::Scene => machine.scene(),
                Step::Object => machine.object(),
                Step::PropertyName => machine.property_name(),
                Step::PropertyValue => machine.property_value(),
                Step::ObjectEnd => machine.object_end(),
                Step::End => Ok(Step::End),
            };
            match result {
                Ok(next) => {
                    curr = next;
                },
                Err(e) => {
                    return Err(e);
                },
            }
        }
        if machine.tokens.len() > 0 {
            return Err(
                ParseError::UnexpectedToken {
                    expected: Token::EoF,
                    actual: machine.tokens[0].clone(),
                    position: machine.position,
                },
            );
        }
        Ok(machine.engine.scene)
    }

    fn push_property(&mut self, property: Property)
        requires
            old(self).wf(),
            old(self)@.scene.objects.len() > 0,
        ensures
            final(self).wf(),
            final(self)@ == old(self)@.with_scene(old(self)@.scene.with_property(property@)),
    {
        let n = self.engine.scene.objects.len();
        self.engine.scene.objects[n - 1].properties.push(property);
        assert(self@.scene.objects[n - 1].properties =~= old(self)@.scene.with_property(
            property@,
        ).objects[n - 1].properties);
        assert(self@.scene.objects =~= old(self)@.scene.with_property(property@).objects);
    }

    fn set_value(&mut self, value: Expression)
        requires
            old(self).wf(),
            old(self)@.scene.objects.len() > 0,
            old(self)@.scene.objects.last().properties.len() > 0,
        ensures
            final(self).wf(),
            final(self)@ == old(self)@.with_scene(old(self)@.scene.with_value(value@)),
    {
        let n = self.engine.scene.objects.len();
        let k = self.engine.scene.objects[n - 1].properties.len();
        self.engine.scene.objects[n - 1].properties[k - 1].value = value;
        assert(self@.scene.objects[n - 1].properties =~= old(self)@.scene.with_value(
            value@,
        ).objects[n - 1].properties);
        assert(self@.scene.objects =~= old(self)@.scene.with_value(value@).objects);
    }
}

/// The error for a token that stands where another was expected: at the
/// end of the input the input is reported as ending too soon.
fn mismatch(expected: Token, actual: Token, position: usize) -> (e: ParseError)
    ensures
        e@ == crate::machine::mismatch(expected@, actual@, position as nat),
{
    if matches!(actual, Token::EoF) {
        ParseError::UnexpectedEndOfInput
    } else {
        ParseError::UnexpectedToken { expected, actual, position }
    }
}

/// What reading a text gives: its tokens, then the scene that the parser
/// builds from them, or the first error of either.
pub open spec fn scene_of(text: Seq<char>) -> Result<SceneView, ParseErrorView> {
    match tokens_from(text, 0) {
        Ok(tokens) => (Machine {
            tokens,
            position: 0,
            scene: SceneView { name: "scene"@, objects: Seq::empty() },
        }).run(Step::Start),
        Err(e) => Err(e),
    }
}

/// Reads a scene description: scans the text and parses its tokens. In the
/// scene that comes out every property has a value, a scalar or a group of
/// scalars.
pub fn read_scene(text: String) -> (r: Result<Scene, ParseError>)
    ensures
        scene_outcome(r) == scene_of(text@),
        r is Ok ==> settled(r->Ok_0@),
{
    let mut tokeniser = Tokeniser::new(text);
    match tokeniser.tokens() {
        Ok(tokens) => Constructor::new(tokens).construct(),
        Err(e) => Err(e),
    }
}

} // verus!
