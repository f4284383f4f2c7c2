//! Editing rules of Insert mode: continuing Markdown lists on Enter and what
//! each key press does.
use vstd::prelude::*;

use crate::keys::{ctrl_only, ctrl_shift, no_mods, Key, KeyCode};
use crate::paths::opt_string_view;
use vstd::string::*;

use crate::text::{chars_of, is_white_space, leading_ws, skip_white_space, string_of_range, string_push, trim_spec};

verus! {

/// An ASCII decimal digit.
pub open spec fn is_ascii_digit(c: char) -> bool {
    '0' <= c && c <= '9'
}

/// How many ASCII digits `s` starts with.
pub open spec fn digit_run(s: Seq<char>) -> nat
    decreases s.len(),
{
    if s.len() > 0 && is_ascii_digit(s[0]) {
        1 + digit_run(s.drop_first())
    } else {
        0
    }
}

/// The value of a string of decimal digits.
pub open spec fn digits_value(d: Seq<char>) -> nat
    decreases d.len(),
{
    if d.len() == 0 {
        0
    } else {
        digits_value(d.drop_last()) * 10 + ((d.last() as int) - 48) as nat
    }
}

/// The character of the decimal digit `d`.
pub open spec fn digit_char(d: nat) -> char {
    (d + 48) as char
}

/// `n` written in decimal, without leading zeros.
pub open spec fn decimal(n: nat) -> Seq<char>
    decreases n,
{
    if n < 10 {
        seq![digit_char(n)]
    } else {
        decimal(n / 10).push(digit_char(n % 10))
    }
}

/// `s` begins with `p`.
pub open spec fn starts_with(s: Seq<char>, p: Seq<char>) -> bool {
    p.len() <= s.len() && s.take(p.len() as int) == p
}

/// `t` begins with a bullet or quote marker: `* `, `- `, `+ ` or `> `.
pub open spec fn starts_with_marker(t: Seq<char>) -> bool {
    t.len() >= 2 && t[1] == ' ' && (t[0] == '*' || t[0] == '-' || t[0] == '+' || t[0] == '>')
}

/// The line after its indentation (its leading white space).
pub open spec fn after_indent(line: Seq<char>) -> Seq<char> {
    line.skip(leading_ws(line))
}

/// For an ordered-list item (indentation, ASCII digits, `. `), its number as
/// `str::parse::<u64>` reads it, or 1 when the digits exceed `u64`.
pub open spec fn ordered_number(line: Seq<char>) -> Option<nat> {
    let t = after_indent(line);
    let d = digit_run(t);
    if d > 0 && starts_with(t.skip(d as int), seq!['.', ' ']) {
        let v = digits_value(t.take(d as int));
        Some(if v <= u64::MAX { v } else { 1 })
    } else {
        None
    }
}

/// The number after `n` in a `u64`: `n + 1`, wrapping to 0 after the largest.
pub open spec fn next_number(n: nat) -> nat {
    if n < u64::MAX {
        n + 1
    } else {
        0
    }
}

/// The prefix that continues the list item `line` on the next line: the
/// indentation and the same marker, or for an ordered item the indentation
/// and the next number; none when the line is not a list item.
pub open spec fn list_prefix(line: Seq<char>) -> Option<Seq<char>> {
    let k = leading_ws(line);
    if starts_with_marker(line.skip(k)) {
        Some(line.take(k + 2))
    } else {
        match ordered_number(line) {
            Some(n) => Some(line.take(k) + decimal(next_number(n)) + seq!['.', ' ']),
            None => None,
        }
    }
}

/// The length of the item's own prefix in `line`: indentation and marker, or
/// indentation, digits and `. `.
pub open spec fn own_prefix_len(line: Seq<char>) -> int {
    let k = leading_ws(line);
    if starts_with_marker(line.skip(k)) {
        k + 2
    } else {
        k + digit_run(line.skip(k)) + 2
    }
}

proof fn lemma_digit_run(s: Seq<char>, i: int)
    requires
        0 <= i <= s.len(),
        forall|j: int| 0 <= j < i ==> is_ascii_digit(#[trigger] s[j]),
        i == s.len() || !is_ascii_digit(s[i]),
    ensures
        digit_run(s) == i,
    decreases i,
{
    if i > 0 {
        lemma_digit_run(s.drop_first(), i - 1);
    }
}

proof fn lemma_digits_push(d: Seq<char>, c: char)
    ensures
        digits_value(d.push(c)) == digits_value(d) * 10 + ((c as int) - 48) as nat,
{
    assert(d.push(c).drop_last() =~= d);
}

proof fn lemma_decimal_len(n: nat)
    ensures
        1 <= decimal(n).len() <= n + 1,
    decreases n,
{
    if n >= 10 {
        lemma_decimal_len(n / 10);
    }
}

/// Appends `n` in decimal to `s`.
pub fn push_decimal(s: &mut String, n: u64)
    ensures
        final(s)@ == old(s)@ + decimal(n as nat),
    decreases n,
{
    if n >= 10 {
        push_decimal(s, n / 10);
    }
    let d: u8 = (n % 10) as u8;
    let c = (48u8 + d) as char;
    assert(c == digit_char((n % 10) as nat));
    string_push(s, c);
    proof {
        if n < 10 {
            assert(decimal(n as nat) =~= seq![digit_char(n as nat)]);
        }
    }
}

/// The number of the ordered-list item `line`, as `ordered_number` gives it.
pub fn ordered_list_number(line: &str) -> (r: Option<u64>)
    ensures
        match r {
            Some(n) => ordered_number(line@) == Some(n as nat),
            None => ordered_number(line@) is None,
        },
{
    let v = chars_of(line);
    let k = skip_white_space(&v, 0);
    assert(v@.skip(0) =~= v@);
    let ghost t = v@.skip(k as int);
    let mut i = k;
    let mut val: u64 = 0;
    let mut over = false;
    assert(v@.subrange(k as int, k as int) =~= Seq::<char>::empty());
    while i < v.len() && '0' <= v[i] && v[i] <= '9'
        invariant
            k <= i <= v.len(),
            t == v@.skip(k as int),
            forall|j: int| k <= j < i ==> is_ascii_digit(#[trigger] v@[j]),
            over ==> digits_value(v@.subrange(k as int, i as int)) > u64::MAX,
            !over ==> digits_value(v@.subrange(k as int, i as int)) == val,
        decreases v.len() - i,
    {
        let d: u64 = ((v[i] as u32) - 48) as u64;
        proof {
            assert(v@.subrange(k as int, i + 1) =~= v@.subrange(k as int, i as int).push(v@[i as int]));
            lemma_digits_push(v@.subrange(k as int, i as int), v@[i as int]);
        }
        if !over {
            match val.checked_mul(10) {
                Some(m) => match m.checked_add(d) {
                    Some(x) => {
                        val = x;
                    },
                    None => {
                        over = true;
                    },
                },
                None => {
                    over = true;
                },
            }
        }
        i = i + 1;
    }
    proof {
        assert forall|j: int| 0 <= j < i - k implies is_ascii_digit(#[trigger] t[j]) by {
            assert(t[j] == v@[k + j]);
        }
        if i < v.len() {
            assert(t[i - k] == v@[i as int]);
        }
        lemma_digit_run(t, i - k);
        assert(t.take(i - k) =~= v@.subrange(k as int, i as int));
        assert(t.skip(i - k) =~= v@.skip(i as int));
    }
    if i > k && i < v.len() && i + 1 < v.len() && v[i] == '.' && v[i + 1] == ' ' {
        assert(v@.skip(i as int).take(2) =~= seq!['.', ' ']);
        if over {
            Some(1)
        } else {
            Some(val)
        }
    } else {
        proof {
            let u = v@.skip(i as int);
            if u.len() >= 2 && u.take(2) == seq!['.', ' '] {
                assert(u.take(2)[0] == u[0] && u.take(2)[1] == u[1]);
                assert(u[0] == v@[i as int] && u[1] == v@[i + 1]);
            }
        }
        None
    }
}

/// The prefix that continues the list item `line` on the next line.
pub fn detect_list_prefix(line: &str) -> (r: Option<String>)
    ensures
        opt_string_view(r) == list_prefix(line@),
{
    let v = chars_of(line);
    let k = skip_white_space(&v, 0);
    assert(v@.skip(0) =~= v@);
    let ghost t = v@.skip(k as int);
    if k < v.len() && k + 1 < v.len() && v[k + 1] == ' ' && (v[k] == '*' || v[k] == '-' || v[k] == '+' || v[k] == '>') {
        assert(t[0] == v@[k as int] && t[1] == v@[k + 1]);
        let p = string_of_range(&v, 0, k + 2);
        assert(v@.subrange(0, k + 2) =~= v@.take(k + 2));
        return Some(p);
    }
    proof {
        if t.len() >= 2 {
            assert(t[0] == v@[k as int] && t[1] == v@[k + 1]);
        }
    }
    match ordered_list_number(line) {
        Some(n) => {
            let mut s = string_of_range(&v, 0, k);
            assert(v@.subrange(0, k as int) =~= v@.take(k as int));
            let next: u64 = if n < u64::MAX {
                n + 1
            } else {
                0
            };
            push_decimal(&mut s, next);
            string_push(&mut s, '.');
            string_push(&mut s, ' ');
            assert(s@ =~= v@.take(k as int) + decimal(next as nat) + seq!['.', ' ']);
            Some(s)
        },
        None => None,
    }
}

/// What Enter does on the list item `line`.
#[derive(Clone, Copy, Debug, PartialEq, Eq, Structural)]
pub enum EnterKind {
    /// Not a list item: a plain new line.
    NotAList,
    /// Only the marker on the line: the item is removed and the list ends.
    EndList,
    /// A new line that starts with the continuation prefix.
    Continue,
}

/// What Enter does on `line`: the text after the item's own prefix decides
/// whether the list ends.
pub open spec fn enter_kind(line: Seq<char>) -> EnterKind {
    match list_prefix(line) {
        None => EnterKind::NotAList,
        Some(p) => if trim_spec(line.skip(own_prefix_len(line))).len() == 0 {
            EnterKind::EndList
        } else {
            EnterKind::Continue
        },
    }
}

/// What a key press does in Insert mode.
pub enum InsertAction {
    /// Ctrl+S: save the note.
    Save,
    /// Ctrl+C or Ctrl+Shift+C: copy the selection to the system clipboard.
    CopySelection,
    /// Ctrl+Z.
    Undo,
    /// Ctrl+Y.
    Redo,
    /// Esc: back to Normal mode, saving the note.
    Leave,
    /// Enter on a list item holding only its marker: clear the line.
    EndList,
    /// Enter on a list item: a new line starting with this prefix.
    ContinueList(String),
    /// Ctrl+Backspace (or Ctrl+H, Ctrl+W, Ctrl+DEL): delete the word before the cursor.
    DeleteWord,
    /// `"`, `'` or `` ` ``: insert the pair and step back between them.
    InsertPair(char),
    /// Anything else: the editor handles the key itself.
    Input,
}

/// The kind of an Insert-mode action, without its data.
#[derive(Clone, Copy, Debug, PartialEq, Eq, Structural)]
pub enum InsertKind {
    Save,
    CopySelection,
    Undo,
    Redo,
    Leave,
    EndList,
    ContinueList,
    DeleteWord,
    InsertPair(char),
    Input,
}

/// The kind of an action.
pub open spec fn insert_kind_of(a: InsertAction) -> InsertKind {
    match a {
        InsertAction::Save => InsertKind::Save,
        InsertAction::CopySelection => InsertKind::CopySelection,
        InsertAction::Undo => InsertKind::Undo,
        InsertAction::Redo => InsertKind::Redo,
        InsertAction::Leave => InsertKind::Leave,
        InsertAction::EndList => InsertKind::EndList,
        InsertAction::ContinueList(_) => InsertKind::ContinueList,
        InsertAction::DeleteWord => InsertKind::DeleteWord,
        InsertAction::InsertPair(c) => InsertKind::InsertPair(c),
        InsertAction::Input => InsertKind::Input,
    }
}

/// What the key press `key` does in Insert mode, the cursor being on `line`;
/// the rules are tried in this order.
pub open spec fn insert_kind(key: Key, line: Seq<char>) -> InsertKind {
    let m = key.mods;
    if ctrl_only(m) && key.code == KeyCode::Char('s') {
        InsertKind::Save
    } else if (ctrl_only(m) && key.code == KeyCode::Char('c')) || (ctrl_shift(m) && key.code
        == KeyCode::Char('C')) {
        InsertKind::CopySelection
    } else if ctrl_only(m) && key.code == KeyCode::Char('z') {
        InsertKind::Undo
    } else if ctrl_only(m) && key.code == KeyCode::Char('y') {
        InsertKind::Redo
    } else if key.code == KeyCode::Esc {
        InsertKind::Leave
    } else if no_mods(m) && key.code == KeyCode::Enter && enter_kind(line) == EnterKind::EndList {
        InsertKind::EndList
    } else if no_mods(m) && key.code == KeyCode::Enter && enter_kind(line) == EnterKind::Continue {
        InsertKind::ContinueList
    } else if ctrl_only(m) && (key.code == KeyCode::Backspace || key.code == KeyCode::Char('h')
        || key.code == KeyCode::Char('w') || key.code == KeyCode::Char('\x7f')) {
        InsertKind::DeleteWord
    } else if no_mods(m) && (key.code == KeyCode::Char('"') || key.code == KeyCode::Char('\'')
        || key.code == KeyCode::Char('`')) {
        InsertKind::InsertPair(key.code->Char_0)
    } else {
        InsertKind::Input
    }
}

fn enter_on(line: &str) -> (r: (EnterKind, Option<String>))
    ensures
        r.0 == enter_kind(line@),
        r.0 == EnterKind::Continue ==> opt_string_view(r.1) == list_prefix(line@),
{
    match detect_list_prefix(line) {
        None => (EnterKind::NotAList, None),
        Some(p) => {
            let v = chars_of(line);
            let k = skip_white_space(&v, 0);
            assert(v@.skip(0) =~= v@);
            let n = own_prefix_length(&v, k);
            proof {
                lemma_prefix_within(line@);
            }
            let rest = string_of_range(&v, n, v.len());
            assert(rest@ =~= line@.skip(n as int));
            let t = crate::text::trim(rest.as_str());
            if t.unicode_len() == 0 {
                (EnterKind::EndList, None)
            } else {
                (EnterKind::Continue, Some(p))
            }
        },
    }
}

proof fn lemma_prefix_within(line: Seq<char>)
    requires
        list_prefix(line) is Some,
    ensures
        own_prefix_len(line) <= line.len(),
{
    lemma_leading_ws_bounds(line);
    let k = leading_ws(line);
    let t = line.skip(k);
    lemma_digit_run_bound(t);
    assert(own_prefix_len(line) <= line.len());
}

proof fn lemma_digit_run_bound(s: Seq<char>)
    ensures
        digit_run(s) <= s.len(),
    decreases s.len(),
{
    if s.len() > 0 {
        lemma_digit_run_bound(s.drop_first());
    }
}

proof fn lemma_leading_ws_bounds(s: Seq<char>)
    ensures
        0 <= leading_ws(s) <= s.len(),
    decreases s.len(),
{
    if s.len() > 0 {
        lemma_leading_ws_bounds(s.drop_first());
    }
}

/// What the key press `key` does in Insert mode, the cursor being on `line`
/// (empty when there is no note).
pub fn insert_action(key: Key, line: &str) -> (r: InsertAction)
    ensures
        insert_kind_of(r) == insert_kind(key, line@),
        r matches InsertAction::ContinueList(p) ==> Some(p@) == list_prefix(line@),
{
    let m = key.mods;
    if m.is_ctrl() && key.code == KeyCode::Char('s') {
        return InsertAction::Save;
    }
    if (m.is_ctrl() && key.code == KeyCode::Char('c')) || (m.is_ctrl_shift() && key.code
        == KeyCode::Char('C')) {
        return InsertAction::CopySelection;
    }
    if m.is_ctrl() && key.code == KeyCode::Char('z') {
        return InsertAction::Undo;
    }
    if m.is_ctrl() && key.code == KeyCode::Char('y') {
        return InsertAction::Redo;
    }
    if key.code == KeyCode::Esc {
        return InsertAction::Leave;
    }
    if m.is_none() && key.code == KeyCode::Enter {
        let (kind, prefix) = enter_on(line);
        match kind {
            EnterKind::EndList => {
                return InsertAction::EndList;
            },
            EnterKind::Continue => {
                match prefix {
                    Some(p) => {
                        return InsertAction::ContinueList(p);
                    },
                    None => {},
                }
            },
            EnterKind::NotAList => {},
        }
    }
    if m.is_ctrl() && (key.code == KeyCode::Backspace || key.code == KeyCode::Char('h')
        || key.code == KeyCode::Char('w') || key.code == KeyCode::Char('\x7f')) {
        return InsertAction::DeleteWord;
    }
    if m.is_none() {
        match key.code {
            KeyCode::Char(c) => {
                if c == '"' || c == '\'' || c == '`' {
                    return InsertAction::InsertPair(c);
                }
            },
            _ => {},
        }
    }
    InsertAction::Input
}

/// `own_prefix_len` of the line `v`, whose indentation ends at `k`.
fn own_prefix_length(v: &Vec<char>, k: usize) -> (r: usize)
    requires
        k <= v.len(),
        k == leading_ws(v@),
        list_prefix(v@) is Some,
    ensures
        r == own_prefix_len(v@),
{
    let ghost t = v@.skip(k as int);
    proof {
        lemma_digit_run_bound(t);
    }
    if k < v.len() && k + 1 < v.len() && v[k + 1] == ' ' && (v[k] == '*' || v[k] == '-' || v[k] == '+' || v[k] == '>') {
        assert(t[0] == v@[k as int] && t[1] == v@[k + 1]);
        return k + 2;
    }
    proof {
        if t.len() >= 2 {
            assert(t[0] == v@[k as int] && t[1] == v@[k + 1]);
        }
    }
    let mut i = k;
    while i < v.len() && '0' <= v[i] && v[i] <= '9'
        invariant
            k <= i <= v.len(),
            forall|j: int| k <= j < i ==> is_ascii_digit(#[trigger] v@[j]),
        decreases v.len() - i,
    {
        i = i + 1;
    }
    proof {
        assert forall|j: int| 0 <= j < i - k implies is_ascii_digit(#[trigger] t[j]) by {
            assert(t[j] == v@[k + j]);
        }
        if i < v.len() {
            assert(t[i - k] == v@[i as int]);
        }
        lemma_digit_run(t, i - k);
    }
    i + 2
}

/// Writing a number in decimal and reading it back gives the number: every
/// character written is a digit, and their value is `n`.
pub proof fn lemma_decimal_roundtrip(n: nat)
    ensures
        digits_value(decimal(n)) == n,
        forall|i: int| 0 <= i < decimal(n).len() ==> is_ascii_digit(#[trigger] decimal(n)[i]),
        digit_run(decimal(n)) == decimal(n).len(),
    decreases n,
{
    lemma_digit_char(n % 10);
    if n < 10 {
        assert(n % 10 == n);
        let c = digit_char(n);
        assert(decimal(n) =~= seq![c]);
        assert(seq![c].drop_last() =~= Seq::<char>::empty());
        assert(seq![c].last() == c);
        assert(digits_value(seq![c]) == digits_value(Seq::<char>::empty()) * 10 + ((c as int) - 48) as nat);
        lemma_digit_run_push(Seq::<char>::empty(), c);
        assert(Seq::<char>::empty().push(c) =~= seq![c]);
    } else {
        lemma_decimal_roundtrip(n / 10);
        let d = decimal(n / 10);
        let c = digit_char(n % 10);
        assert(decimal(n) == d.push(c));
        assert(d.push(c).drop_last() =~= d);
        assert(d.push(c).last() == c);
        assert(digits_value(d.push(c)) == digits_value(d) * 10 + ((c as int) - 48) as nat);
        assert((n / 10) * 10 + n % 10 == n) by (nonlinear_arith);
        lemma_digit_run_push(d, c);
    }
}

proof fn lemma_digit_char(d: nat)
    requires
        d < 10,
    ensures
        (digit_char(d) as int) == d + 48,
        is_ascii_digit(digit_char(d)),
{
    assert((d + 48) as char as int == d + 48);
}

proof fn lemma_digit_run_push(d: Seq<char>, c: char)
    requires
        forall|i: int| 0 <= i < d.len() ==> is_ascii_digit(#[trigger] d[i]),
        digit_run(d) == d.len(),
        is_ascii_digit(c),
    ensures
        digit_run(d.push(c)) == d.len() + 1,
    decreases d.len(),
{
    if d.len() > 0 {
        assert(is_ascii_digit(d[0]));
        assert(digit_run(d) == 1 + digit_run(d.drop_first()));
        assert(d.push(c).drop_first() =~= d.drop_first().push(c));
        assert forall|i: int| 0 <= i < d.drop_first().len() implies is_ascii_digit(#[trigger] d.drop_first()[i]) by {
            assert(d.drop_first()[i] == d[i + 1]);
        }
        lemma_digit_run_push(d.drop_first(), c);
        assert(d.push(c)[0] == d[0]);
    } else {
        assert(d.push(c) =~= seq![c]);
        assert(seq![c][0] == c);
        assert(seq![c].drop_first() =~= Seq::<char>::empty());
        assert(digit_run(seq![c]) == 1 + digit_run(seq![c].drop_first()));
    }
}

/// Continuing a bullet or quote item continues it with the same prefix:
/// the line that Enter starts is itself an item of the same list, whatever
/// is then typed after the prefix.
pub proof fn lemma_bullet_continues(line: Seq<char>, text: Seq<char>)
    requires
        starts_with_marker(after_indent(line)),
    ensures
        list_prefix(list_prefix(line)->0 + text) == list_prefix(line),
{
    lemma_leading_ws_bounds(line);
    let k = leading_ws(line);
    let p = line.take(k + 2);
    let l2 = p + text;
    lemma_leading_ws_prefix(line, k, l2);
    assert(l2.skip(k)[0] == line.skip(k)[0]);
    assert(l2.skip(k)[1] == line.skip(k)[1]);
    assert(l2.take(k + 2) =~= p);
}

/// `leading_ws` of a line that agrees with `line` on its indentation and the
/// character after it.
proof fn lemma_leading_ws_prefix(line: Seq<char>, k: int, other: Seq<char>)
    requires
        k == leading_ws(line),
        0 <= k < line.len(),
        k < other.len(),
        forall|i: int| 0 <= i <= k ==> #[trigger] other[i] == line[i],
    ensures
        leading_ws(other) == k,
    decreases k,
{
    if k > 0 {
        lemma_leading_ws_bounds(line.drop_first());
        assert(line.len() > 0 && is_white_space(line[0]));
        assert(leading_ws(line) == 1 + leading_ws(line.drop_first()));
        assert(line.drop_first().len() == line.len() - 1);
        assert forall|i: int| 0 <= i <= k - 1 implies #[trigger] other.drop_first()[i] == line.drop_first()[i] by {
            assert(other.drop_first()[i] == other[i + 1]);
            assert(line.drop_first()[i] == line[i + 1]);
        }
        lemma_leading_ws_prefix(line.drop_first(), k - 1, other.drop_first());
        assert(other[0] == line[0]);
        assert(leading_ws(other) == 1 + leading_ws(other.drop_first()));
    } else {
        lemma_leading_ws_bounds(line.drop_first());
        assert(!is_white_space(line[0]));
        assert(other[0] == line[0]);
    }
}

proof fn lemma_leading_ws_exact(s: Seq<char>, k: int)
    requires
        0 <= k <= s.len(),
        forall|i: int| 0 <= i < k ==> is_white_space(#[trigger] s[i]),
        k < s.len() ==> !is_white_space(s[k]),
    ensures
        leading_ws(s) == k,
    decreases k,
{
    if k > 0 {
        assert forall|i: int| 0 <= i < k - 1 implies is_white_space(#[trigger] s.drop_first()[i]) by {
            assert(s.drop_first()[i] == s[i + 1]);
        }
        if k < s.len() {
            assert(s.drop_first()[k - 1] == s[k]);
        }
        lemma_leading_ws_exact(s.drop_first(), k - 1);
    }
}

/// Continuing an ordered item starts the next number: the line that Enter
/// starts is an item numbered one more, whatever is then typed after it.
pub proof fn lemma_ordered_continues(line: Seq<char>, text: Seq<char>, n: nat)
    requires
        !starts_with_marker(after_indent(line)),
        ordered_number(line) == Some(n),
        n + 1 <= u64::MAX,
    ensures
        ordered_number(list_prefix(line)->0 + text) == Some(n + 1),
{
    lemma_leading_ws_bounds(line);
    let k = leading_ws(line);
    let d = decimal(n + 1);
    lemma_decimal_roundtrip(n + 1);
    let new = line.take(k) + d + seq!['.', ' '] + text;
    assert(list_prefix(line)->0 + text =~= new);
    assert forall|i: int| 0 <= i < k implies is_white_space(#[trigger] new[i]) by {
        assert(new[i] == line[i]);
        lemma_leading_ws_exact_back(line, i);
    }
    assert(new[k] == d[0]);
    assert(is_ascii_digit(d[0]));
    lemma_leading_ws_exact(new, k);
    let t = new.skip(k);
    assert(t =~= d + seq!['.', ' '] + text);
    assert forall|j: int| 0 <= j < d.len() implies is_ascii_digit(#[trigger] t[j]) by {
        assert(t[j] == d[j]);
    }
    assert(t[d.len() as int] == '.');
    lemma_digit_run(t, d.len() as int);
    assert(t.take(d.len() as int) =~= d);
    assert(t.skip(d.len() as int).take(2) =~= seq!['.', ' ']);
}

/// The characters before the end of the indentation are white space.
proof fn lemma_leading_ws_exact_back(s: Seq<char>, i: int)
    requires
        0 <= i < leading_ws(s),
    ensures
        is_white_space(s[i]),
    decreases i,
{
    lemma_leading_ws_bounds(s.drop_first());
    if i > 0 {
        lemma_leading_ws_exact_back(s.drop_first(), i - 1);
        assert(s.drop_first()[i - 1] == s[i]);
    }
}

/// Whether leaving Insert mode adds an empty line at the end of the note:
/// its last line is not empty.
pub fn needs_trailing_newline(lines: &Vec<String>) -> (r: bool)
    ensures
        r == (lines@.len() > 0 && lines@.last()@.len() > 0),
{
    if lines.len() == 0 {
        false
    } else {
        lines[lines.len() - 1].as_str().unicode_len() > 0
    }
}

/// What leaving Insert mode does to the active note.
#[derive(Clone, Copy, Debug, PartialEq, Eq, Structural)]
pub struct LeavePlan {
    /// An empty line is added at the end of the note.
    pub add_newline: bool,
    /// The note is saved.
    pub save: bool,
}

/// What leaving Insert mode does to a note whose lines are `lines` and whose
/// unsaved state is `dirty`: an empty line is added at the end when the last
/// line is not empty (which is itself a change), and the note is saved when
/// it has unsaved changes.
pub fn leave_insert(lines: &Vec<String>, dirty: bool) -> (r: LeavePlan)
    ensures
        r.add_newline == (lines@.len() > 0 && lines@.last()@.len() > 0),
        r.save == (dirty || r.add_newline),
{
    let add_newline = needs_trailing_newline(lines);
    LeavePlan { add_newline, save: dirty || add_newline }
}

} // verus!
