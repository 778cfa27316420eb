//! State of the emulated keyboard and keys, and keymap generation.
//! Regards the keyboard as if it were composed of switches.

use vstd::prelude::*;

use crate::action::Action;
use crate::action::ActionV;

verus! {

/// Is the switch down?
#[derive(Clone, Copy, Debug, PartialEq, Eq, Structural)]
pub enum PressType {
    Released,
    Pressed,
}

/// The state of one key: whether it is pressed, which raw keycodes its
/// submission uses, and what it does.
#[derive(Clone, Debug)]
pub struct KeyState {
    pub pressed: PressType,
    /// A cache of raw keycodes derived from `Action::Submit` given a keymap.
    pub keycodes: Vec<u32>,
    /// Static description of what the key does when pressed or released.
    pub action: Action,
}

/// Mathematical image of `KeyState`.
pub ghost struct KeyStateV {
    pub pressed: PressType,
    pub keycodes: Seq<u32>,
    pub action: ActionV,
}

impl View for KeyState {
    type V = KeyStateV;

    open spec fn view(&self) -> KeyStateV {
        KeyStateV { pressed: self.pressed, keycodes: self.keycodes@, action: self.action@ }
    }
}

impl KeyState {
    /// The same key, released.
    #[must_use]
    pub fn into_released(self) -> (r: KeyState)
        ensures
            r@.pressed == PressType::Released,
            r@.keycodes == self@.keycodes,
            r@.action == self@.action,
    {
        KeyState { pressed: PressType::Released, ..self }
    }

    /// The same key, pressed.
    #[must_use]
    pub fn into_pressed(self) -> (r: KeyState)
        ensures
            r@.pressed == PressType::Pressed,
            r@.keycodes == self@.keycodes,
            r@.action == self@.action,
    {
        KeyState { pressed: PressType::Pressed, ..self }
    }
}

/// Lexicographic order on character sequences, by scalar value.
pub open spec fn lex_lt(a: Seq<char>, b: Seq<char>) -> bool
    decreases a.len(),
{
    if b.len() == 0 {
        false
    } else if a.len() == 0 {
        true
    } else if a[0] == b[0] {
        lex_lt(a.drop_first(), b.drop_first())
    } else {
        (a[0] as u32) < (b[0] as u32)
    }
}

/// Lexicographic comparison of two strings.
pub fn str_lt(a: &String, b: &String) -> (r: bool)
    ensures
        r == lex_lt(a@, b@),
{
    let alen = a.as_str().unicode_len();
    let blen = b.as_str().unicode_len();
    let mut i: usize = 0;
    proof {
        assert(a@.skip(0) =~= a@);
        assert(b@.skip(0) =~= b@);
    }
    loop
        invariant
            i <= alen,
            i <= blen,
            alen == a@.len(),
            blen == b@.len(),
            lex_lt(a@, b@) == lex_lt(a@.skip(i as int), b@.skip(i as int)),
        decreases alen - i,
    {
        if i >= blen {
            proof {
                assert(b@.skip(i as int).len() == 0);
            }
            return false;
        }
        if i >= alen {
            proof {
                assert(a@.skip(i as int).len() == 0);
                assert(b@.skip(i as int).len() > 0);
            }
            return true;
        }
        let ca = a.as_str().get_char(i);
        let cb = b.as_str().get_char(i);
        proof {
            assert(a@.skip(i as int)[0] == a@[i as int]);
            assert(b@.skip(i as int)[0] == b@[i as int]);
        }
        if ca == cb {
            proof {
                assert(a@.skip(i as int).drop_first() =~= a@.skip(i + 1));
                assert(b@.skip(i as int).drop_first() =~= b@.skip(i + 1));
            }
            i = i + 1;
        } else {
            return (ca as u32) < (cb as u32);
        }
    }
}

/// The lexicographic order never relates a sequence to itself.
pub proof fn lemma_lex_lt_irrefl(a: Seq<char>)
    ensures
        !lex_lt(a, a),
    decreases a.len(),
{
    if a.len() > 0 {
        lemma_lex_lt_irrefl(a.drop_first());
    }
}

/// The lexicographic order is transitive.
pub proof fn lemma_lex_lt_trans(a: Seq<char>, b: Seq<char>, c: Seq<char>)
    requires
        lex_lt(a, b),
        lex_lt(b, c),
    ensures
        lex_lt(a, c),
    decreases a.len() + b.len() + c.len(),
{
    if c.len() == 0 {
    } else if a.len() == 0 {
    } else if b.len() == 0 {
    } else {
        if a[0] == b[0] && b[0] == c[0] {
            lemma_lex_lt_trans(a.drop_first(), b.drop_first(), c.drop_first());
        }
    }
}

/// The views of a sequence of strings.
pub open spec fn name_views(s: Seq<String>) -> Seq<Seq<char>> {
    s.map_values(|n: String| n@)
}

/// Sorts the names lexicographically.  The result holds the same names
/// (as a multiset), in non-decreasing order.
pub fn sorted(names: Vec<String>) -> (r: Vec<String>)
    ensures
        r@.len() == names@.len(),
        forall|i: int, j: int|
            0 <= i < j < r@.len() ==> !lex_lt(#[trigger] r@[j]@, #[trigger] r@[i]@),
        name_views(r@).to_multiset() == name_views(names@).to_multiset(),
{
    broadcast use vstd::seq_lib::group_to_multiset_ensures;
    broadcast use vstd::multiset::group_multiset_axioms;

    let ghost orig = name_views(names@).to_multiset();
    let mut input = names;
    let mut out: Vec<String> = Vec::new();
    proof {
        assert(name_views(out@) =~= Seq::<Seq<char>>::empty());
        assert forall|x: Seq<char>| name_views(out@).to_multiset().count(x) == 0 by {
            assert(!name_views(out@).contains(x));
        }
        assert(name_views(out@).to_multiset().add(name_views(input@).to_multiset()) =~= orig);
    }
    while input.len() > 0
        invariant
            name_views(out@).to_multiset().add(name_views(input@).to_multiset()) =~= orig,
            forall|i: int, j: int|
                0 <= i < j < out@.len() ==> !lex_lt(#[trigger] out@[j]@, #[trigger] out@[i]@),
            forall|i: int, j: int|
                0 <= i < out@.len() && 0 <= j < input@.len() ==> !lex_lt(
                    #[trigger] input@[j]@,
                    #[trigger] out@[i]@,
                ),
            out@.len() + input@.len() == names@.len(),
        decreases input.len(),
    {
        let mut mi: usize = 0;
        let mut j: usize = 1;
        proof {
            lemma_lex_lt_irrefl(input@[0]@);
        }
        while j < input.len()
            invariant
                mi < j <= input@.len(),
                forall|k: int| 0 <= k < j ==> !lex_lt(#[trigger] input@[k]@, input@[mi as int]@),
            decreases input.len() - j,
        {
            if str_lt(&input[j], &input[mi]) {
                proof {
                    assert forall|k: int| 0 <= k < j implies !lex_lt(
                        #[trigger] input@[k]@,
                        input@[j as int]@,
                    ) by {
                        if lex_lt(input@[k]@, input@[j as int]@) {
                            lemma_lex_lt_trans(
                                input@[k]@,
                                input@[j as int]@,
                                input@[mi as int]@,
                            );
                        }
                    }
                    lemma_lex_lt_irrefl(input@[j as int]@);
                }
                mi = j;
            }
            j = j + 1;
        }
        let ghost pre_input = input@;
        let ghost pre_out = out@;
        let x = input.remove(mi);
        out.push(x);
        proof {
            let ghost sv = name_views(pre_input);
            let ghost ov = name_views(pre_out);
            let ghost xv = pre_input[mi as int]@;
            assert(sv[mi as int] == xv);
            assert(name_views(input@) =~= sv.remove(mi as int));
            vstd::seq_lib::to_multiset_remove(sv, mi as int);
            assert(name_views(input@).to_multiset() == sv.to_multiset().remove(xv));
            assert(name_views(out@) =~= ov.push(xv));
            vstd::seq_lib::to_multiset_build(ov, xv);
            assert(name_views(out@).to_multiset() =~= ov.to_multiset().insert(xv));
            assert(sv.contains(xv)) by {
                assert(sv[mi as int] == xv);
            }
            assert(sv.to_multiset().count(xv) > 0) by {
                vstd::seq_lib::to_multiset_contains(sv, xv);
            }
            assert forall|e: Seq<char>|
                name_views(out@).to_multiset().add(
                    name_views(input@).to_multiset(),
                ).count(e) == orig.count(e) by {
                vstd::multiset::axiom_multiset_add(
                    ov.to_multiset(),
                    sv.to_multiset(),
                    e,
                );
                vstd::multiset::axiom_multiset_add(
                    name_views(out@).to_multiset(),
                    name_views(input@).to_multiset(),
                    e,
                );
                assert(ov.to_multiset().add(sv.to_multiset()) =~= orig);
                assert(orig.count(e) == ov.to_multiset().count(e) + sv.to_multiset().count(e));
            }
            assert(name_views(out@).to_multiset().add(name_views(input@).to_multiset())
                =~= orig);
        }
    }
    out
}

/// Generates the mapping from key names to keycodes.  The names,
/// together with the synthetic `BackSpace` and `Return` entries, are
/// sorted lexicographically (removing a source of indeterminism) and
/// then numbered consecutively starting at 9 — not 8, because keycode 8
/// maps to scancode 0, which compositors like to discard.
pub fn generate_keycodes(key_names: Vec<String>) -> (r: Vec<(String, u32)>)
    requires
        key_names@.len() + 11 < 0xFFFF_FFFF,
    ensures
        r@.len() == key_names@.len() + 2,
        forall|i: int| 0 <= i < r@.len() ==> (#[trigger] r@[i]).1 == 9 + i,
        forall|i: int, j: int|
            0 <= i < j < r@.len() ==> !lex_lt(#[trigger] r@[j].0@, #[trigger] r@[i].0@),
        r@.map_values(|p: (String, u32)| p.0@).to_multiset() == name_views(
            key_names@,
        ).to_multiset().insert("BackSpace"@).insert("Return"@),
{
    broadcast use vstd::seq_lib::group_to_multiset_ensures;

    let ghost base = name_views(key_names@);
    let mut names = key_names;
    names.push("BackSpace".to_owned());
    names.push("Return".to_owned());
    proof {
        assert(name_views(names@) =~= base.push("BackSpace"@).push("Return"@));
        assert(name_views(names@).to_multiset() =~= base.to_multiset().insert(
            "BackSpace"@,
        ).insert("Return"@));
    }
    let names = sorted(names);
    let mut r: Vec<(String, u32)> = Vec::new();
    let mut i: usize = 0;
    while i < names.len()
        invariant
            i <= names@.len(),
            names@.len() + 9 < 0xFFFF_FFFF,
            r@.len() == i,
            forall|k: int| 0 <= k < i ==> (#[trigger] r@[k]).1 == 9 + k,
            forall|k: int| 0 <= k < i ==> (#[trigger] r@[k]).0@ == names@[k]@,
        decreases names@.len() - i,
    {
        r.push((names[i].clone(), 9 + i as u32));
        i = i + 1;
    }
    proof {
        assert(r@.map_values(|p: (String, u32)| p.0@) =~= name_views(names@));
    }
    r
}

} // verus!

verus! {

/// Ways the keymap text could fail to form.  Text generation is total,
/// so these do not occur; the type is kept for the interface.
#[derive(Clone, Copy, Debug, PartialEq, Eq, Structural)]
pub enum FormattingError {
    Utf,
    Format,
}

/// The decimal digit `d` as a character.
pub open spec fn digit_char(d: nat) -> char {
    if d == 0 {
        '0'
    } else if d == 1 {
        '1'
    } else if d == 2 {
        '2'
    } else if d == 3 {
        '3'
    } else if d == 4 {
        '4'
    } else if d == 5 {
        '5'
    } else if d == 6 {
        '6'
    } else if d == 7 {
        '7'
    } else if d == 8 {
        '8'
    } else {
        '9'
    }
}

/// The decimal notation of `n`, most significant digit first.
pub open spec fn spec_dec(n: nat) -> Seq<char>
    decreases n,
{
    if n < 10 {
        seq![digit_char(n)]
    } else {
        spec_dec(n / 10).push(digit_char(n % 10))
    }
}

/// Appends the decimal notation of `n`.
pub fn push_dec(s: &mut String, n: u32)
    ensures
        final(s)@ == old(s)@ + spec_dec(n as nat),
    decreases n,
{
    let ghost pre = s@;
    if n >= 10 {
        push_dec(s, n / 10);
    }
    let d = n % 10;
    let digit: &str = match d {
        0 => "0",
        1 => "1",
        2 => "2",
        3 => "3",
        4 => "4",
        5 => "5",
        6 => "6",
        7 => "7",
        8 => "8",
        _ => "9",
    };
    proof {
        reveal_strlit("0");
        reveal_strlit("1");
        reveal_strlit("2");
        reveal_strlit("3");
        reveal_strlit("4");
        reveal_strlit("5");
        reveal_strlit("6");
        reveal_strlit("7");
        reveal_strlit("8");
        reveal_strlit("9");
        assert(digit@ =~= seq![digit_char(d as nat)]);
    }
    s.append(digit);
    proof {
        if n >= 10 {
            assert(s@ =~= pre + spec_dec(n as nat));
        } else {
            assert(s@ =~= pre + spec_dec(n as nat));
        }
    }
}

} // verus!

verus! {

/// One keycode declaration line.
pub open spec fn spec_keycode_line(k: nat) -> Seq<char> {
    "\n        <I"@ + spec_dec(k) + "> = "@ + spec_dec(k) + ";"@
}

/// The keycode declarations for `lo` (inclusive) up to `hi` (exclusive).
pub open spec fn spec_keycode_lines(lo: nat, hi: nat) -> Seq<char>
    decreases hi - lo,
{
    if lo >= hi {
        Seq::empty()
    } else {
        spec_keycode_line(lo) + spec_keycode_lines(lo + 1, hi)
    }
}

/// Keycode lines grow one line at a time at the back.
pub proof fn lemma_keycode_lines_snoc(lo: nat, hi: nat)
    requires
        lo <= hi,
    ensures
        spec_keycode_lines(lo, hi + 1) =~= spec_keycode_lines(lo, hi) + spec_keycode_line(hi),
    decreases hi - lo,
{
    if lo >= hi {
        assert(spec_keycode_lines(lo, hi) =~= Seq::empty());
        assert(spec_keycode_lines(lo, lo + 1) =~= spec_keycode_line(lo) + spec_keycode_lines(
            lo + 1,
            lo + 1,
        ));
        assert(spec_keycode_lines(lo + 1, lo + 1) =~= Seq::empty());
    } else {
        lemma_keycode_lines_snoc(lo + 1, hi);
    }
}

/// One symbol binding line.
pub open spec fn spec_symbol_line(keysym: Seq<char>, keycode: nat) -> Seq<char> {
    "\n        key <I"@ + spec_dec(keycode) + "> { [ "@ + keysym + " ] };"@
}

/// The symbol lines of one submitting key: each named keysym paired with
/// a keycode, up to the shorter of the two lists, in order.  The first
/// `upto` pairs.
pub open spec fn spec_submit_lines(keys: Seq<Seq<char>>, codes: Seq<u32>, upto: nat) -> Seq<char>
    decreases upto,
{
    if upto == 0 {
        Seq::empty()
    } else {
        spec_submit_lines(keys, codes, (upto - 1) as nat) + spec_symbol_line(
            keys[upto - 1],
            codes[upto - 1] as nat,
        )
    }
}

/// The number of pairs a submitting key produces.
pub open spec fn spec_pair_count(keys: Seq<Seq<char>>, codes: Seq<u32>) -> nat {
    if keys.len() <= codes.len() {
        keys.len()
    } else {
        codes.len()
    }
}

/// The symbol lines of one key: a submitting key binds its keysyms, an
/// erasing key binds `BackSpace` to its first keycode, everything else
/// binds nothing.
pub open spec fn spec_entry_lines(state: KeyStateV) -> Seq<char> {
    match state.action {
        crate::action::ActionV::Submit { keys, .. } => spec_submit_lines(
            keys,
            state.keycodes,
            spec_pair_count(keys, state.keycodes),
        ),
        crate::action::ActionV::Erase => spec_symbol_line("BackSpace"@, state.keycodes[0] as nat),
        _ => Seq::empty(),
    }
}

/// The symbol lines of all keys, in order.
pub open spec fn spec_symbols_section(entries: Seq<(Seq<char>, KeyStateV)>) -> Seq<char>
    decreases entries.len(),
{
    if entries.len() == 0 {
        Seq::empty()
    } else {
        spec_symbols_section(entries.drop_last()) + spec_entry_lines(entries.last().1)
    }
}

/// The whole keymap text: header, keycode declarations 9 to 998, the
/// symbol section, and the fixed types and compatibility sections.
pub open spec fn spec_keymap(entries: Seq<(Seq<char>, KeyStateV)>) -> Seq<char> {
    "xkb_keymap {\n\n    xkb_keycodes \"squeekboard\" {\n        minimum = 8;\n        maximum = 999;\n"@
        + spec_keycode_lines(9, 999)
        + "\n        indicator 1 = \"Caps Lock\"; // Xwayland won't accept without it.\n    };\n    \n    xkb_symbols \"squeekboard\" {\n\n"@
        + spec_symbols_section(entries)
        + "\n    };\n\n    xkb_types \"squeekboard\" {\n        virtual_modifiers Squeekboard; // No modifiers! Needed for Xorg for some reason.\n    \n        // Those names are needed for Xwayland.\n        type \"ONE_LEVEL\" {\n            modifiers= none;\n            level_name[Level1]= \"Any\";\n        };\n        type \"TWO_LEVEL\" {\n            level_name[Level1]= \"Base\";\n        };\n        type \"ALPHABETIC\" {\n            level_name[Level1]= \"Base\";\n        };\n        type \"KEYPAD\" {\n            level_name[Level1]= \"Base\";\n        };\n        type \"SHIFT+ALT\" {\n            level_name[Level1]= \"Base\";\n        };\n\n    };\n\n    xkb_compatibility \"squeekboard\" {\n        // Needed for Xwayland again.\n        interpret Any+AnyOf(all) {\n            action= SetMods(modifiers=modMapMods,clearLocks);\n        };\n    };\n};\n"@
}

/// The view of the key list.
pub open spec fn entry_views(s: Seq<(String, KeyState)>) -> Seq<(Seq<char>, KeyStateV)> {
    s.map_values(|p: (String, KeyState)| (p.0@, p.1@))
}

/// Generates a de-facto single-level keymap covering keycodes 9 to 998.
/// Erasing keys must carry at least one keycode.  Generation cannot
/// fail; the `Result` shape is kept for the interface.
pub fn generate_keymap(keystates: &Vec<(String, KeyState)>) -> (r: Result<String, FormattingError>)
    requires
        forall|i: int|
            0 <= i < keystates@.len() ==> ((#[trigger] keystates@[i]).1@.action is Erase
                ==> keystates@[i].1@.keycodes.len() >= 1),
    ensures
        match r {
            Ok(text) => text@ == spec_keymap(entry_views(keystates@)),
            Err(_) => false,
        },
{
    let mut buf = String::new();
    buf.append(
        "xkb_keymap {\n\n    xkb_keycodes \"squeekboard\" {\n        minimum = 8;\n        maximum = 999;\n",
    );
    let ghost head1 = buf@;
    // Not all layouts fit in 255 characters, so the limit is 999.
    let mut keycode: u32 = 9;
    proof {
        assert(buf@ =~= head1 + spec_keycode_lines(9, 9));
    }
    while keycode < 999
        invariant
            9 <= keycode <= 999,
            buf@ == head1 + spec_keycode_lines(9, keycode as nat),
        decreases 999 - keycode,
    {
        let ghost pre = buf@;
        buf.append("\n        <I");
        push_dec(&mut buf, keycode);
        buf.append("> = ");
        push_dec(&mut buf, keycode);
        buf.append(";");
        proof {
            assert(buf@ =~= pre + spec_keycode_line(keycode as nat));
            lemma_keycode_lines_snoc(9, keycode as nat);
            assert(buf@ =~= head1 + spec_keycode_lines(9, (keycode + 1) as nat));
        }
        keycode = keycode + 1;
    }
    buf.append(
        "\n        indicator 1 = \"Caps Lock\"; // Xwayland won't accept without it.\n    };\n    \n    xkb_symbols \"squeekboard\" {\n\n",
    );
    let ghost head2 = buf@;
    proof {
        assert(entry_views(keystates@).take(0) =~= Seq::<(Seq<char>, KeyStateV)>::empty());
        assert(buf@ =~= head2 + spec_symbols_section(entry_views(keystates@).take(0)));
    }
    let mut ei: usize = 0;
    while ei < keystates.len()
        invariant
            ei <= keystates@.len(),
            buf@ == head2 + spec_symbols_section(entry_views(keystates@).take(ei as int)),
            forall|i: int|
                0 <= i < keystates@.len() ==> ((#[trigger] keystates@[i]).1@.action is Erase
                    ==> keystates@[i].1@.keycodes.len() >= 1),
        decreases keystates@.len() - ei,
    {
        let ghost pre = buf@;
        let ghost ev = entry_views(keystates@);
        let state = &keystates[ei].1;
        match &state.action {
            Action::Submit { keys, .. } => {
                let ghost skeys = state@.action->Submit_keys;
                let pairs = if keys.len() <= state.keycodes.len() {
                    keys.len()
                } else {
                    state.keycodes.len()
                };
                proof {
                    assert(skeys.len() == keys@.len());
                    assert(spec_submit_lines(skeys, state@.keycodes, 0) =~= Seq::<char>::empty());
                    assert(buf@ =~= pre + spec_submit_lines(skeys, state@.keycodes, 0));
                }
                let mut pi: usize = 0;
                while pi < pairs
                    invariant
                        pi <= pairs,
                        skeys == state@.action->Submit_keys,
                        pairs == spec_pair_count(skeys, state@.keycodes),
                        pairs <= keys@.len(),
                        pairs <= state.keycodes@.len(),
                        skeys.len() == keys@.len(),
                        forall|j: int|
                            0 <= j < keys@.len() ==> #[trigger] skeys[j] == keys@[j]@,
                        buf@ == pre + spec_submit_lines(skeys, state@.keycodes, pi as nat),
                    decreases pairs - pi,
                {
                    let ghost line_pre = buf@;
                    buf.append("\n        key <I");
                    push_dec(&mut buf, state.keycodes[pi]);
                    buf.append("> { [ ");
                    buf.append(keys[pi].0.as_str());
                    buf.append(" ] };");
                    proof {
                        assert(skeys[pi as int] == keys@[pi as int]@);
                        assert(buf@ =~= line_pre + spec_symbol_line(
                            skeys[pi as int],
                            state@.keycodes[pi as int] as nat,
                        ));
                        assert(buf@ =~= pre + spec_submit_lines(
                            skeys,
                            state@.keycodes,
                            (pi + 1) as nat,
                        ));
                    }
                    pi = pi + 1;
                }
            },
            Action::Erase => {
                buf.append("\n        key <I");
                push_dec(&mut buf, state.keycodes[0]);
                buf.append("> { [ ");
                buf.append("BackSpace");
                buf.append(" ] };");
                proof {
                    assert(buf@ =~= pre + spec_symbol_line("BackSpace"@, state@.keycodes[0] as nat));
                }
            },
            _ => {},
        }
        proof {
            assert(ev.take(ei + 1).drop_last() =~= ev.take(ei as int));
            assert(ev.take(ei + 1).last() == ev[ei as int]);
            assert(ev[ei as int].1 == keystates@[ei as int].1@);
            assert(buf@ =~= pre + spec_entry_lines(ev[ei as int].1));
            assert(buf@ =~= head2 + spec_symbols_section(ev.take(ei + 1)));
        }
        ei = ei + 1;
    }
    proof {
        assert(entry_views(keystates@).take(keystates@.len() as int) =~= entry_views(keystates@));
    }
    buf.append(
        "\n    };\n\n    xkb_types \"squeekboard\" {\n        virtual_modifiers Squeekboard; // No modifiers! Needed for Xorg for some reason.\n    \n        // Those names are needed for Xwayland.\n        type \"ONE_LEVEL\" {\n            modifiers= none;\n            level_name[Level1]= \"Any\";\n        };\n        type \"TWO_LEVEL\" {\n            level_name[Level1]= \"Base\";\n        };\n        type \"ALPHABETIC\" {\n            level_name[Level1]= \"Base\";\n        };\n        type \"KEYPAD\" {\n            level_name[Level1]= \"Base\";\n        };\n        type \"SHIFT+ALT\" {\n            level_name[Level1]= \"Base\";\n        };\n\n    };\n\n    xkb_compatibility \"squeekboard\" {\n        // Needed for Xwayland again.\n        interpret Any+AnyOf(all) {\n            action= SetMods(modifiers=modMapMods,clearLocks);\n        };\n    };\n};\n",
    );
    proof {
        assert(buf@ =~= spec_keymap(entry_views(keystates@)));
    }
    Ok(buf)
}

} // verus!
