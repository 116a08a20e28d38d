//! Scenes as text: the characters under which tokens are written, and the
//! proof that the scanner reads them back.
use crate::chars::{is_digit, is_letter, is_space};
use crate::constructor::scene_of;
use crate::error::ParseErrorView;
use crate::grammar::{
    is_scalar, is_value, items_tokens, lemma_text_read, object_tokens, object_written,
    objects_tokens, objects_written, properties_tokens, property_tokens, scalar_token, scene_tokens,
    value_tokens,
};
use crate::machine::scene_keyword;
use crate::scene::{
    name_of_type, ExpressionView, ObjectType, ObjectView, PropertyView, SceneView,
};
use crate::tokeniser::{
    closes_string, closing_quote, digits_end, identifier_at, lemma_closing_quote, lemma_digits_end,
    lemma_letters_end, lemma_spaces_end, lemma_token_moves, letters_end, number_at, punctuation,
    slice, spaces_end, string_at, token_at, tokens_from, word_at, Scan, TokenView,
};
use vstd::prelude::*;

verus! {

/// A token read `by` characters further on.
pub open spec fn shifted(scan: Scan, by: int) -> Scan {
    Scan { token: scan.token, next: scan.next + by }
}

/// Whitespace ends at the same place, whatever stands in front of the text.
pub proof fn lemma_spaces_shift(front: Seq<char>, text: Seq<char>, i: int)
    requires
        0 <= i <= text.len(),
    ensures
        spaces_end(front + text, front.len() + i) == front.len() + spaces_end(text, i),
    decreases text.len() - i,
{
    if i < text.len() {
        assert((front + text)[front.len() + i] == text[i]);
        if is_space(text[i]) {
            lemma_spaces_shift(front, text, i + 1);
        }
    }
}

/// A run of letters ends at the same place, whatever stands in front of
/// the text.
pub proof fn lemma_letters_shift(front: Seq<char>, text: Seq<char>, i: int)
    requires
        0 <= i <= text.len(),
    ensures
        letters_end(front + text, front.len() + i) == front.len() + letters_end(text, i),
    decreases text.len() - i,
{
    if i < text.len() {
        assert((front + text)[front.len() + i] == text[i]);
        if is_letter(text[i]) {
            lemma_letters_shift(front, text, i + 1);
        }
    }
}

/// The digits of a number end at the same place, whatever stands in front
/// of the text.
pub proof fn lemma_digits_shift(front: Seq<char>, text: Seq<char>, i: int, period_seen: bool)
    requires
        0 <= i <= text.len(),
    ensures
        digits_end(front + text, front.len() + i, period_seen) == front.len() + digits_end(
            text,
            i,
            period_seen,
        ),
    decreases text.len() - i,
{
    if i < text.len() {
        assert((front + text)[front.len() + i] == text[i]);
        if is_digit(text[i]) {
            lemma_digits_shift(front, text, i + 1, period_seen);
        } else if text[i] == '.' && !period_seen {
            lemma_digits_shift(front, text, i + 1, true);
        }
    }
}

/// Behind the first character of the text, a closing quote is found at the
/// same place, whatever stands in front of the text.
pub proof fn lemma_quote_shift(front: Seq<char>, text: Seq<char>, i: int)
    requires
        1 <= i <= text.len(),
    ensures
        closing_quote(front + text, front.len() + i) == front.len() + closing_quote(text, i),
    decreases text.len() - i,
{
    if i < text.len() {
        assert((front + text)[front.len() + i] == text[i]);
        assert((front + text)[front.len() + i - 1] == text[i - 1]);
        if !closes_string(text, i) {
            lemma_quote_shift(front, text, i + 1);
        }
    }
}

/// A part of the text is the same part, whatever stands in front of the
/// text.
pub proof fn lemma_slice_shift(front: Seq<char>, text: Seq<char>, from: int, to: int)
    requires
        0 <= from <= to <= text.len(),
    ensures
        slice(front + text, front.len() + from, front.len() + to) == slice(text, from, to),
{
    assert(slice(front + text, front.len() + from, front.len() + to) =~= slice(text, from, to));
}

/// The scanner reads the same token at a place, whatever stands in front
/// of the text.
pub proof fn lemma_token_shift(front: Seq<char>, text: Seq<char>, i: int)
    requires
        0 <= i <= text.len(),
    ensures
        token_at(front + text, front.len() + i) == shifted(token_at(text, i), front.len() as int),
{
    let whole = front + text;
    let n = front.len() as int;
    lemma_spaces_shift(front, text, i);
    lemma_spaces_end(text, i);
    let start = spaces_end(text, i);
    if start < text.len() {
        let c = text[start];
        assert(whole[n + start] == c);
        if punctuation(c) is None {
            if is_digit(c) || c == '-' {
                let digits = if c == '-' {
                    start + 1
                } else {
                    start
                };
                lemma_digits_shift(front, text, digits, false);
                lemma_digits_end(text, digits, false);
                lemma_slice_shift(front, text, start, digits_end(text, digits, false));
                assert(number_at(whole, n + start) == shifted(number_at(text, start), n));
            } else if is_letter(c) {
                lemma_letters_shift(front, text, start);
                lemma_letters_end(text, start);
                lemma_slice_shift(front, text, start, letters_end(text, start));
                assert(identifier_at(whole, n + start) == shifted(identifier_at(text, start), n));
            } else if c == '"' {
                lemma_quote_shift(front, text, start + 1);
                lemma_closing_quote(text, start + 1);
                let close = closing_quote(text, start + 1);
                if close < text.len() {
                    lemma_slice_shift(front, text, start + 1, close);
                }
                assert(string_at(whole, n + start) == shifted(string_at(text, start), n));
            }
            assert(word_at(whole, n + start) == shifted(word_at(text, start), n));
        }
    }
}

/// Where the scanner reads all the tokens of a text, it reads the same
/// tokens whatever stands in front of the text.
pub proof fn lemma_tokens_shift(front: Seq<char>, text: Seq<char>, i: int)
    requires
        0 <= i <= text.len(),
        tokens_from(text, i) is Ok,
    ensures
        tokens_from(front + text, front.len() + i) == tokens_from(text, i),
    decreases text.len() - i,
{
    lemma_token_shift(front, text, i);
    lemma_token_moves(text, i);
    let scan = token_at(text, i);
    if scan.token != TokenView::EoF && scan.token != TokenView::Unknown {
        lemma_tokens_shift(front, text, scan.next);
    }
}

/// The characters under which a token is written. A string stands between
/// quotes; `EoF` and `Unknown` are not written.
pub open spec fn token_text(token: TokenView) -> Seq<char> {
    match token {
        TokenView::Identifier(text) => text,
        TokenView::Number(text) => text,
        TokenView::String(text) => seq!['"'] + text + seq!['"'],
        TokenView::LBrace => seq!['{'],
        TokenView::RBrace => seq!['}'],
        TokenView::LParen => seq!['('],
        TokenView::RParen => seq![')'],
        TokenView::Dot => seq!['.'],
        TokenView::Comma => seq![','],
        TokenView::Equal => seq!['='],
        TokenView::EoF => Seq::empty(),
        TokenView::Unknown => Seq::empty(),
    }
}

/// The text of an identifier: one letter or more, and letters only.
pub open spec fn is_name(text: Seq<char>) -> bool {
    text.len() > 0 && forall|i: int| 0 <= i < text.len() ==> is_letter(#[trigger] text[i])
}

/// The text of a number: a minus sign or a digit, then digits to the end
/// with at most one period among them.
pub open spec fn is_numeral(text: Seq<char>) -> bool {
    text.len() > 0 && (is_digit(text[0]) || text[0] == '-') && digits_end(
        text,
        if text[0] == '-' {
            1
        } else {
            0
        },
        false,
    ) == text.len()
}

/// The text of a string: each quote in it stands behind a backslash, and
/// no backslash stands at its end.
pub open spec fn is_raw(text: Seq<char>) -> bool {
    (forall|i: int|
        0 <= i < text.len() && #[trigger] text[i] == '"' ==> i > 0 && text[i - 1] == '\\') && (
    text.len() > 0 ==> text.last() != '\\')
}

/// A token that the scanner can hand out.
pub open spec fn is_legible(token: TokenView) -> bool {
    match token {
        TokenView::Identifier(text) => is_name(text),
        TokenView::Number(text) => is_numeral(text),
        TokenView::String(text) => is_raw(text),
        TokenView::EoF => false,
        TokenView::Unknown => false,
        _ => true,
    }
}

/// Tokens written one after the other, a space behind each.
pub open spec fn laid_out(tokens: Seq<TokenView>) -> Seq<char>
    decreases tokens.len(),
{
    if tokens.len() == 0 {
        Seq::empty()
    } else {
        token_text(tokens[0]) + seq![' '] + laid_out(tokens.skip(1))
    }
}

/// Letters up to a character that is no letter are one run.
pub proof fn lemma_letters_run(text: Seq<char>, end: int, i: int)
    requires
        0 <= i <= end < text.len(),
        forall|j: int| 0 <= j < end ==> is_letter(#[trigger] text[j]),
        !is_letter(text[end]),
    ensures
        letters_end(text, i) == end,
    decreases end - i,
{
    if i < end {
        assert(is_letter(text[i]));
        lemma_letters_run(text, end, i + 1);
    }
}

/// Digits that run to the end of a word end there too when a character
/// that is neither digit nor period stands behind the word.
pub proof fn lemma_digits_run(
    word: Seq<char>,
    rest: Seq<char>,
    i: int,
    period_seen: bool,
)
    requires
        0 <= i <= word.len(),
        digits_end(word, i, period_seen) == word.len(),
        rest.len() > 0,
        !is_digit(rest[0]),
        rest[0] != '.',
    ensures
        digits_end(word + rest, i, period_seen) == word.len(),
    decreases word.len() - i,
{
    let text = word + rest;
    if i < word.len() {
        assert(text[i] == word[i]);
        if is_digit(word[i]) {
            lemma_digits_run(word, rest, i + 1, period_seen);
        } else if word[i] == '.' && !period_seen {
            lemma_digits_run(word, rest, i + 1, true);
        }
    } else {
        assert(text[i] == rest[0]);
    }
}

/// Inside a string no quote closes it; the quote behind it does.
pub proof fn lemma_string_run(text: Seq<char>, rest: Seq<char>, i: int)
    requires
        is_raw(text),
        1 <= i <= text.len() + 1,
    ensures
        closing_quote(seq!['"'] + text + seq!['"'] + rest, i) == text.len() + 1,
    decreases text.len() + 1 - i,
{
    let whole = seq!['"'] + text + seq!['"'] + rest;
    assert(whole[0] == '"');
    assert(whole[text.len() as int + 1] == '"');
    if i <= text.len() {
        assert(whole[i] == text[i - 1]);
        if i >= 2 {
            assert(whole[i - 1] == text[i - 2]);
        }
        assert(!closes_string(whole, i));
        lemma_string_run(text, rest, i + 1);
    } else {
        if text.len() > 0 {
            assert(whole[i - 1] == text[text.len() - 1]);
        }
        assert(closes_string(whole, i));
    }
}

/// A token that is written with a space behind it is the token that the
/// scanner reads there, up to the space.
pub proof fn lemma_token_read(token: TokenView, rest: Seq<char>)
    requires
        is_legible(token),
    ensures
        token_at(token_text(token) + seq![' '] + rest, 0) == (Scan {
            token,
            next: token_text(token).len() as int,
        }),
        token_text(token).len() > 0,
{
    let word = token_text(token);
    let behind = seq![' '] + rest;
    let text = word + seq![' '] + rest;
    assert(text =~= word + behind);
    match token {
        TokenView::Identifier(name) => {
            assert(text[0] == name[0]);
            assert(is_letter(name[0]));
            assert forall|j: int| 0 <= j < name.len() implies is_letter(#[trigger] text[j]) by {
                assert(text[j] == name[j]);
            }
            assert(text[name.len() as int] == ' ');
            lemma_letters_run(text, name.len() as int, 0);
            assert(slice(text, 0, name.len() as int) =~= name);
        },
        TokenView::Number(number) => {
            assert(text[0] == number[0]);
            let digits = if number[0] == '-' {
                1int
            } else {
                0int
            };
            lemma_digits_run(number, behind, digits, false);
            assert(slice(text, 0, number.len() as int) =~= number);
        },
        TokenView::String(raw) => {
            assert(text[0] == '"');
            assert(text =~= seq!['"'] + raw + seq!['"'] + behind);
            lemma_string_run(raw, behind, 1);
            assert(slice(text, 1, raw.len() as int + 1) =~= raw);
        },
        _ => {
            assert(text[0] == word[0]);
        },
    }
}

/// Legible tokens that are written one after the other with a space behind
/// each are read back by the scanner, as many and in that order.
pub proof fn lemma_tokens_read(tokens: Seq<TokenView>)
    requires
        forall|i: int| 0 <= i < tokens.len() ==> is_legible(#[trigger] tokens[i]),
    ensures
        tokens_from(laid_out(tokens), 0) == Ok::<Seq<TokenView>, ParseErrorView>(tokens),
    decreases tokens.len(),
{
    let text = laid_out(tokens);
    if tokens.len() == 0 {
        assert(tokens =~= Seq::empty());
    } else {
        let first = tokens[0];
        let more = tokens.skip(1);
        let word = token_text(first);
        let rest = laid_out(more);
        let end = word.len() as int;
        assert(is_legible(first));
        lemma_token_read(first, rest);
        assert(token_at(text, 0).next == end);
        assert(text[end] == ' ');
        assert(spaces_end(text, end) == spaces_end(text, end + 1));
        assert(token_at(text, end) == token_at(text, end + 1));
        assert(tokens_from(text, end) == tokens_from(text, end + 1));
        assert forall|i: int| 0 <= i < more.len() implies is_legible(#[trigger] more[i]) by {
            assert(more[i] == tokens[i + 1]);
        }
        lemma_tokens_read(more);
        assert(text =~= (word + seq![' ']) + rest);
        lemma_tokens_shift(word + seq![' '], rest, 0);
        assert(seq![first] + more =~= tokens);
    }
}

/// Every token of the sequence is legible.
pub open spec fn all_legible(tokens: Seq<TokenView>) -> bool {
    forall|i: int| 0 <= i < tokens.len() ==> is_legible(#[trigger] tokens[i])
}

/// A scalar whose token is legible.
pub open spec fn scalar_legible(value: ExpressionView) -> bool {
    is_scalar(value) && is_legible(scalar_token(value))
}

/// A legible scalar, or a group of one legible scalar or more.
pub open spec fn value_legible(value: ExpressionView) -> bool {
    match value {
        ExpressionView::Group(items) => items.len() > 0 && forall|i: int|
            0 <= i < items.len() ==> scalar_legible(#[trigger] items[i]),
        _ => scalar_legible(value),
    }
}

/// A property whose name is the text of an identifier and whose value is
/// legible.
pub open spec fn property_legible(property: PropertyView) -> bool {
    is_name(property.name) && value_legible(property.value)
}

/// An object whose name is the text of an identifier and whose properties
/// are legible.
pub open spec fn object_legible(object: ObjectView) -> bool {
    is_name(object.name) && forall|j: int|
        0 <= j < object.properties.len() ==> property_legible(#[trigger] object.properties[j])
}

/// A scene that can be written as text: it has one object or more, and its
/// name, its objects and their properties are legible.
pub open spec fn scene_legible(scene: SceneView) -> bool {
    is_name(scene.name) && scene.objects.len() > 0 && forall|i: int|
        0 <= i < scene.objects.len() ==> object_legible(#[trigger] scene.objects[i])
}

/// Legible tokens behind legible tokens are legible tokens.
pub proof fn lemma_legible_joined(first: Seq<TokenView>, second: Seq<TokenView>)
    requires
        all_legible(first),
        all_legible(second),
    ensures
        all_legible(first + second),
{
    assert forall|i: int| 0 <= i < (first + second).len() implies is_legible(
        #[trigger] (first + second)[i],
    ) by {
        if i < first.len() {
            assert((first + second)[i] == first[i]);
        } else {
            assert((first + second)[i] == second[i - first.len()]);
        }
    }
}

/// The scene keyword and the names of the object types are texts of
/// identifiers.
pub proof fn lemma_words_are_names(obj_type: ObjectType)
    ensures
        is_name(scene_keyword()),
        is_name(name_of_type(obj_type)),
{
    reveal_strlit("scene");
    reveal_strlit("Camera");
    reveal_strlit("Light");
    reveal_strlit("Physics");
    reveal_strlit("Material");
    reveal_strlit("Controller");
    reveal_strlit("Sphere");
    reveal_strlit("Rectangle");
    reveal_strlit("Image");
    reveal_strlit("Active");
}

/// The items of a legible group are written in legible tokens.
pub proof fn lemma_items_legible(items: Seq<ExpressionView>)
    requires
        forall|i: int| 0 <= i < items.len() ==> scalar_legible(#[trigger] items[i]),
    ensures
        all_legible(items_tokens(items)),
    decreases items.len(),
{
    if items.len() == 1 {
        assert(scalar_legible(items[0]));
    } else if items.len() > 1 {
        let more = items.skip(1);
        assert(scalar_legible(items[0]));
        assert forall|i: int| 0 <= i < more.len() implies scalar_legible(#[trigger] more[i]) by {
            assert(more[i] == items[i + 1]);
        }
        lemma_items_legible(more);
        lemma_legible_joined(seq![scalar_token(items[0]), TokenView::Comma], items_tokens(more));
    }
}

/// A legible property is written in legible tokens, and its value is one
/// that the grammar can write.
pub proof fn lemma_property_legible(property: PropertyView)
    requires
        property_legible(property),
    ensures
        all_legible(property_tokens(property)),
        is_value(property.value),
{
    let head = seq![
        TokenView::Dot,
        TokenView::Identifier(property.name),
        TokenView::Equal,
    ];
    match property.value {
        ExpressionView::Group(items) => {
            lemma_items_legible(items);
            lemma_legible_joined(seq![TokenView::LParen], items_tokens(items));
            lemma_legible_joined(
                seq![TokenView::LParen] + items_tokens(items),
                seq![TokenView::RParen],
            );
            assert forall|i: int| 0 <= i < items.len() implies is_scalar(#[trigger] items[i]) by {
                assert(scalar_legible(items[i]));
            }
        },
        _ => {},
    }
    lemma_legible_joined(head, value_tokens(property.value));
}

/// Legible properties are written in legible tokens.
pub proof fn lemma_properties_legible(properties: Seq<PropertyView>, trailing: bool)
    requires
        forall|j: int| 0 <= j < properties.len() ==> property_legible(#[trigger] properties[j]),
    ensures
        all_legible(properties_tokens(properties, trailing)),
        forall|j: int| 0 <= j < properties.len() ==> is_value(#[trigger] properties[j].value),
    decreases properties.len(),
{
    assert forall|j: int| 0 <= j < properties.len() implies is_value(
        #[trigger] properties[j].value,
    ) by {
        assert(property_legible(properties[j]));
        lemma_property_legible(properties[j]);
    }
    if properties.len() == 1 {
        lemma_property_legible(properties[0]);
        lemma_legible_joined(
            property_tokens(properties[0]),
            if trailing {
                seq![TokenView::Comma]
            } else {
                Seq::empty()
            },
        );
    } else if properties.len() > 1 {
        let more = properties.skip(1);
        lemma_property_legible(properties[0]);
        assert forall|j: int| 0 <= j < more.len() implies property_legible(#[trigger] more[j]) by {
            assert(more[j] == properties[j + 1]);
        }
        lemma_properties_legible(more, trailing);
        lemma_legible_joined(property_tokens(properties[0]), seq![TokenView::Comma]);
        lemma_legible_joined(
            property_tokens(properties[0]) + seq![TokenView::Comma],
            properties_tokens(more, trailing),
        );
    }
}

/// Legible objects are written in legible tokens.
pub proof fn lemma_objects_legible(objects: Seq<ObjectView>, trailing: Seq<bool>)
    requires
        forall|i: int| 0 <= i < objects.len() ==> object_legible(#[trigger] objects[i]),
    ensures
        all_legible(objects_tokens(objects, trailing)),
        objects_written(objects),
    decreases objects.len(),
{
    assert forall|i: int| 0 <= i < objects.len() implies object_written(#[trigger] objects[i]) by {
        assert(object_legible(objects[i]));
        lemma_properties_legible(objects[i].properties, false);
    }
    if objects.len() > 0 {
        let first = objects[0];
        let more = objects.skip(1);
        let head = seq![
            TokenView::Identifier(name_of_type(first.obj_type)),
            TokenView::Identifier(first.name),
            TokenView::LBrace,
        ];
        assert(object_legible(first));
        lemma_words_are_names(first.obj_type);
        lemma_properties_legible(first.properties, trailing[0]);
        lemma_legible_joined(head, properties_tokens(first.properties, trailing[0]));
        lemma_legible_joined(
            head + properties_tokens(first.properties, trailing[0]),
            seq![TokenView::RBrace],
        );
        assert forall|i: int| 0 <= i < more.len() implies object_legible(#[trigger] more[i]) by {
            assert(more[i] == objects[i + 1]);
        }
        lemma_objects_legible(more, trailing.skip(1));
        lemma_legible_joined(
            object_tokens(first, trailing[0]),
            objects_tokens(more, trailing.skip(1)),
        );
    }
}

/// Every legible scene, written out token by token under the grammar with
/// a space behind each token, and with or without a comma behind the last
/// property of each object, is read back as it was written.
pub proof fn lemma_scene_written(scene: SceneView, trailing: Seq<bool>)
    requires
        scene_legible(scene),
        trailing.len() == scene.objects.len(),
    ensures
        scene_of(laid_out(scene_tokens(scene, trailing))) == Ok::<SceneView, ParseErrorView>(
            scene,
        ),
{
    let head = seq![
        TokenView::Identifier(scene_keyword()),
        TokenView::Identifier(scene.name),
        TokenView::LBrace,
    ];
    lemma_words_are_names(ObjectType::Camera);
    lemma_objects_legible(scene.objects, trailing);
    lemma_legible_joined(head, objects_tokens(scene.objects, trailing));
    lemma_legible_joined(
        head + objects_tokens(scene.objects, trailing),
        seq![TokenView::RBrace],
    );
    lemma_tokens_read(scene_tokens(scene, trailing));
    lemma_text_read(laid_out(scene_tokens(scene, trailing)), scene, trailing);
}

} // verus!
