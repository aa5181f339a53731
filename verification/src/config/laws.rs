//! What keys are called, and what they lead to.

use vstd::prelude::*;

#[allow(unused_imports)]
use crate::config::{
    allows, code_text, config_file, is_first_exact, key_named, key_press, key_sequence, key_text,
    lemma_first_exact, lookup, normal_key, strip_modifiers, Bound, KeyCode, KeyError, KeyEvent,
    KeyModifiers, KeyPress, MatchView, Rows,
};
#[allow(unused_imports)]
use crate::inline_text::reflow::{lemma_blank_words, lemma_words_concat};
#[allow(unused_imports)]
use crate::text::{trim, words};

verus! {

/// How the names of the keys differ.
proof fn lemma_key_names()
    ensures
        "esc"@.len() == 3 && "esc"@[0] == 'e' && "esc"@[1] == 's',
        "escape"@.len() == 6 && "escape"@[0] == 'e',
        "enter"@.len() == 5 && "enter"@[0] == 'e',
        "return"@.len() == 6 && "return"@[0] == 'r',
        "tab"@.len() == 3 && "tab"@[0] == 't',
        "backspace"@.len() == 9 && "backspace"@[0] == 'b',
        "bs"@.len() == 2 && "bs"@[0] == 'b',
        "delete"@.len() == 6 && "delete"@[0] == 'd',
        "del"@.len() == 3 && "del"@[0] == 'd',
        "up"@.len() == 2 && "up"@[0] == 'u',
        "down"@.len() == 4 && "down"@[0] == 'd',
        "left"@.len() == 4 && "left"@[0] == 'l',
        "right"@.len() == 5 && "right"@[0] == 'r',
        "pageup"@.len() == 6 && "pageup"@[0] == 'p',
        "page-up"@.len() == 7,
        "pgup"@.len() == 4 && "pgup"@[0] == 'p' && "pgup"@[2] == 'u',
        "pagedown"@.len() == 8,
        "page-down"@.len() == 9 && "page-down"@[0] == 'p',
        "pgdn"@.len() == 4 && "pgdn"@[0] == 'p' && "pgdn"@[2] == 'd',
        "home"@.len() == 4 && "home"@[0] == 'h',
        "end"@.len() == 3 && "end"@[0] == 'e' && "end"@[1] == 'n',
        "space"@.len() == 5 && "space"@[0] == 's',
        "null"@.len() == 4 && "null"@[0] == 'n',
{
    reveal_strlit("esc");
    reveal_strlit("escape");
    reveal_strlit("enter");
    reveal_strlit("return");
    reveal_strlit("tab");
    reveal_strlit("backspace");
    reveal_strlit("bs");
    reveal_strlit("delete");
    reveal_strlit("del");
    reveal_strlit("up");
    reveal_strlit("down");
    reveal_strlit("left");
    reveal_strlit("right");
    reveal_strlit("pageup");
    reveal_strlit("page-up");
    reveal_strlit("pgup");
    reveal_strlit("pagedown");
    reveal_strlit("page-down");
    reveal_strlit("pgdn");
    reveal_strlit("home");
    reveal_strlit("end");
    reveal_strlit("space");
    reveal_strlit("null");
}

/// Each key that bindings can name has its name or names, and is shown by the first of
/// them. A name of one character is that character.
pub proof fn law_keys_have_names(c: char)
    ensures
        key_named("esc"@) == Some(KeyCode::Esc),
        key_named("escape"@) == Some(KeyCode::Esc),
        key_named("enter"@) == Some(KeyCode::Enter),
        key_named("return"@) == Some(KeyCode::Enter),
        key_named("tab"@) == Some(KeyCode::Tab),
        key_named("backspace"@) == Some(KeyCode::Backspace),
        key_named("bs"@) == Some(KeyCode::Backspace),
        key_named("delete"@) == Some(KeyCode::Delete),
        key_named("del"@) == Some(KeyCode::Delete),
        key_named("up"@) == Some(KeyCode::Up),
        key_named("down"@) == Some(KeyCode::Down),
        key_named("left"@) == Some(KeyCode::Left),
        key_named("right"@) == Some(KeyCode::Right),
        key_named("pageup"@) == Some(KeyCode::PageUp),
        key_named("page-up"@) == Some(KeyCode::PageUp),
        key_named("pgup"@) == Some(KeyCode::PageUp),
        key_named("pagedown"@) == Some(KeyCode::PageDown),
        key_named("page-down"@) == Some(KeyCode::PageDown),
        key_named("pgdn"@) == Some(KeyCode::PageDown),
        key_named("home"@) == Some(KeyCode::Home),
        key_named("end"@) == Some(KeyCode::End),
        key_named("space"@) == Some(KeyCode::Char(' ')),
        key_named("null"@) == Some(KeyCode::Null),
        key_named(seq![c]) == Some(KeyCode::Char(c)),
        code_text(KeyCode::Esc) == "esc"@,
        code_text(KeyCode::Enter) == "enter"@,
        code_text(KeyCode::Tab) == "tab"@,
        code_text(KeyCode::Backspace) == "backspace"@,
        code_text(KeyCode::Delete) == "delete"@,
        code_text(KeyCode::Up) == "up"@,
        code_text(KeyCode::Down) == "down"@,
        code_text(KeyCode::Left) == "left"@,
        code_text(KeyCode::Right) == "right"@,
        code_text(KeyCode::PageUp) == "pageup"@,
        code_text(KeyCode::PageDown) == "pagedown"@,
        code_text(KeyCode::Home) == "home"@,
        code_text(KeyCode::End) == "end"@,
        code_text(KeyCode::Null) == "null"@,
        code_text(KeyCode::Char(' ')) == "space"@,
        c != ' ' ==> code_text(KeyCode::Char(c)) == seq![c],
{
    lemma_key_names();
}

/// A modifier in front of a key is read whatever stands behind it, under both of its
/// names where it has two, and the order of modifiers does not count.
pub proof fn law_modifiers_are_read(rest: Seq<char>, m: KeyModifiers)
    ensures
        strip_modifiers("ctrl-"@ + rest, m) == strip_modifiers(
            rest,
            KeyModifiers { control: true, ..m },
        ),
        strip_modifiers("control-"@ + rest, m) == strip_modifiers(
            rest,
            KeyModifiers { control: true, ..m },
        ),
        strip_modifiers("alt-"@ + rest, m) == strip_modifiers(
            rest,
            KeyModifiers { alt: true, ..m },
        ),
        strip_modifiers("meta-"@ + rest, m) == strip_modifiers(
            rest,
            KeyModifiers { alt: true, ..m },
        ),
        strip_modifiers("shift-"@ + rest, m) == strip_modifiers(
            rest,
            KeyModifiers { shift: true, ..m },
        ),
{
    reveal_strlit("ctrl-");
    reveal_strlit("control-");
    reveal_strlit("alt-");
    reveal_strlit("meta-");
    reveal_strlit("shift-");
    let a = "ctrl-"@ + rest;
    assert(a.take(5) =~= "ctrl-"@ && a.skip(5) =~= rest);
    let b = "control-"@ + rest;
    assert(b.take(8) =~= "control-"@ && b.skip(8) =~= rest);
    assert(b.take(5)[1] == 'o');
    assert("ctrl-"@[1] == 't');
    let c = "alt-"@ + rest;
    assert(c.take(4) =~= "alt-"@ && c.skip(4) =~= rest);
    assert(c[0] == 'a');
    assert(c.len() >= 5 ==> c.take(5)[0] == 'a');
    assert(c.len() >= 8 ==> c.take(8)[0] == 'a');
    let d = "meta-"@ + rest;
    assert(d.take(5) =~= "meta-"@ && d.skip(5) =~= rest);
    assert(d.take(5)[0] == 'm' && d.take(4)[0] == 'm');
    assert(d.len() >= 8 ==> d.take(8)[0] == 'm');
    let e = "shift-"@ + rest;
    assert(e.take(6) =~= "shift-"@ && e.skip(6) =~= rest);
    assert(e.take(5)[0] == 's' && e.take(4)[0] == 's');
    assert(e.len() >= 8 ==> e.take(8)[0] == 's');
}

/// For a character shift does not count, and neither does its case; for other keys shift
/// counts, and all other modifiers always do.
pub proof fn law_shift_of_characters(event: KeyEvent, c: char)
    ensures
        ({
            let key = normal_key(event);
            &&& key.modifiers.control == event.modifiers.control
            &&& key.modifiers.alt == event.modifiers.alt
            &&& key.modifiers.super_key == event.modifiers.super_key
            &&& key.modifiers.hyper == event.modifiers.hyper
            &&& key.modifiers.meta == event.modifiers.meta
            &&& event.code is Char ==> !key.modifiers.shift && key.code is Char
            &&& !(event.code is Char) ==> key.code == event.code && key.modifiers.shift
                == event.modifiers.shift
        }),
        normal_key(KeyEvent { code: KeyCode::Char('X'), ..event }) == normal_key(
            KeyEvent { code: KeyCode::Char('x'), ..event },
        ),
        'a' <= c <= 'z' ==> normal_key(KeyEvent { code: KeyCode::Char(c), ..event }).code
            == KeyCode::Char(c),
{
}

/// The keys pressed lead to the first action with just these keys among those that are
/// open; a binding that goes on behind them makes them wait only where there is no such
/// action; and where no open binding begins with them, they lead nowhere.
pub proof fn law_keys_lead_to_actions(
    bindings: Seq<Bound>,
    actions: Seq<Seq<char>>,
    pressed: Seq<KeyPress>,
    i: int,
)
    requires
        actions.len() > 0,
        0 <= i < bindings.len(),
    ensures
        actions.contains(bindings[i].0) && bindings[i].1 == pressed && (forall|j: int|
            0 <= j < i && (#[trigger] bindings[j]).1 == pressed ==> !actions.contains(
                bindings[j].0,
            )) ==> lookup(bindings, actions, pressed) == MatchView::Action(bindings[i].0),
        lookup(bindings, actions, pressed) matches MatchView::Action(action) ==> actions.contains(
            action,
        ),
        actions.contains(bindings[i].0) && bindings[i].1.len() > pressed.len()
            && bindings[i].1.take(pressed.len() as int) == pressed ==> !(lookup(
            bindings,
            actions,
            pressed,
        ) is NoMatch),
        lookup(bindings, actions, pressed) is Prefix && actions.contains(bindings[i].0)
            ==> bindings[i].1 != pressed,
        lookup(bindings, actions, pressed) is NoMatch && actions.contains(bindings[i].0)
            && bindings[i].1.len() >= pressed.len() ==> bindings[i].1.take(pressed.len() as int)
            != pressed,
{
    if actions.contains(bindings[i].0) && bindings[i].1 == pressed {
        lemma_least(bindings, actions, pressed, i);
        if forall|j: int|
            0 <= j < i && (#[trigger] bindings[j]).1 == pressed ==> !actions.contains(
                bindings[j].0,
            ) {
            assert(is_first_exact(bindings, actions, pressed, i));
            lemma_first_exact(bindings, actions, pressed, i);
        }
    }
}

proof fn lemma_least(
    bindings: Seq<Bound>,
    actions: Seq<Seq<char>>,
    pressed: Seq<KeyPress>,
    i: int,
)
    requires
        0 <= i < bindings.len(),
        allows(actions, bindings[i].0),
        bindings[i].1 == pressed,
    ensures
        exists|k: int| is_first_exact(bindings, actions, pressed, k),
    decreases i,
{
    if forall|j: int|
        0 <= j < i ==> !(allows(actions, (#[trigger] bindings[j]).0) && bindings[j].1 == pressed) {
        assert(is_first_exact(bindings, actions, pressed, i));
    } else {
        let j = choose|j: int|
            0 <= j < i && allows(actions, (#[trigger] bindings[j]).0) && bindings[j].1 == pressed;
        lemma_least(bindings, actions, pressed, j);
    }
}

/// The configuration lies below the directory that the environment names for it, or else
/// below `.config` in the home directory, or nowhere.
pub proof fn law_configuration_lies_below(xdg: Seq<char>, home: Seq<char>)
    requires
        xdg.len() > 0 && xdg.last() != '/',
        home.len() > 0 && home.last() != '/',
    ensures
        config_file(Some(xdg), Some(home)) == Some(
            xdg + "/"@ + "innards"@ + "/"@ + "config.toml"@,
        ),
        config_file(Some(xdg), None) == config_file(Some(xdg), Some(home)),
        config_file(None, Some(home)) == Some(
            home + "/"@ + ".config"@ + "/"@ + "innards"@ + "/"@ + "config.toml"@,
        ),
        config_file(None, None) is None,
{
    reveal_strlit("innards");
    reveal_strlit("config.toml");
    reveal_strlit(".config");
    reveal_strlit("/");
    assert("innards"@.last() == 's');
    assert(".config"@.last() == 'g');
    assert((xdg + "/"@ + "innards"@).last() == 's');
    assert((home + "/"@ + ".config"@).last() == 'g');
    assert((home + "/"@ + ".config"@ + "/"@ + "innards"@).last() == 's');
}

/// A table of bindings gives an action these keys.
pub open spec fn binds(rows: Rows, action: Seq<char>, keys: Seq<Seq<char>>) -> bool {
    exists|i: int| 0 <= i < rows.len() && #[trigger] rows[i] == (action, keys)
}

/// Keys that stand one behind the other with white space between them are read one by one;
/// one that has no such name spoils them all.
pub proof fn law_sequences_are_read(a: Seq<char>, b: Seq<char>)
    requires
        words(a).len() > 0,
        words(b).len() > 0,
    ensures
        key_sequence(a) is Some && key_sequence(b) is Some ==> key_sequence(a + " "@ + b) == Some(
            key_sequence(a)->0 + key_sequence(b)->0,
        ),
        key_sequence(a) is None || key_sequence(b) is None ==> key_sequence(a + " "@ + b) is None,
{
    reveal_strlit(" ");
    let gap = " "@;
    lemma_words_concat(a, gap);
    lemma_blank_words(gap);
    lemma_words_concat(a + gap, b);
    let one = words(a);
    let two = words(b);
    let all = words(a + gap + b);
    assert(all =~= one + two);
    if key_sequence(a) is Some && key_sequence(b) is Some {
        assert forall|i: int| 0 <= i < all.len() implies key_press(#[trigger] all[i]) is Some by {
            if i < one.len() {
                assert(all[i] == one[i]);
            } else {
                assert(all[i] == two[i - one.len()]);
            }
        }
        assert(key_sequence(a + gap + b)->0 =~= key_sequence(a)->0 + key_sequence(b)->0);
    }
    if key_sequence(a) is None {
        let i = choose|i: int| 0 <= i < one.len() && key_press(#[trigger] one[i]) is None;
        assert(all[i] == one[i]);
    }
    if key_sequence(b) is None {
        let i = choose|i: int| 0 <= i < two.len() && key_press(#[trigger] two[i]) is None;
        assert(all[one.len() + i] == two[i]);
    }
}

/// A plus sign counts as a minus sign, and a capital letter as a small one.
pub proof fn law_key_texts_are_alike(input: Seq<char>, i: int)
    requires
        0 <= i < trim(input).len(),
    ensures
        ({
            let text = key_text(input);
            let c = trim(input)[i];
            &&& text.len() == trim(input).len()
            &&& c == '+' ==> text[i] == '-'
            &&& c != '+' && !('A' <= c <= 'Z') ==> text[i] == c
            &&& c == 'C' ==> text[i] == 'c'
            &&& c == 'X' ==> text[i] == 'x'
        }),
{
}

/// What is wrong with a key is told with the key.
pub proof fn law_faults_are_told(key: String)
    ensures
        KeyError::EmptyKey.text() == "empty key"@,
        KeyError::EmptySequence.text() == "empty key sequence"@,
        KeyError::UnknownKey(key).text() == "unknown key `"@ + key@ + "`"@,
{
}

} // verus!
