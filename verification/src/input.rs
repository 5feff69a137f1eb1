use crate::tokenizer::copy_chars;
use crate::tokenizer::is_digit_char;
use vstd::prelude::*;

verus! {

/// The calculator's input line and its formation rules: which character may
/// be appended after which, the single-dot-per-number rule, the length cap,
/// and the clear-on-next-keystroke behaviour after a result was shown.
pub struct MyApp {
    input: Vec<char>,
    clear: bool,
}

/// The five binary operator characters of the input language.
pub open spec fn is_binary_op_char(c: char) -> bool {
    c == '+' || c == '-' || c == 'x' || c == '/' || c == '%'
}

/// Whether a `.` may be typed: allowed exactly when no dot has occurred
/// since the last binary operator, so each number carries at most one dot.
pub open spec fn dot_allowed(s: Seq<char>) -> bool
    decreases s.len(),
{
    if s.len() == 0 {
        true
    } else if s.last() == '.' {
        false
    } else if is_binary_op_char(s.last()) {
        true
    } else {
        dot_allowed(s.drop_last())
    }
}

/// Occurrences of `c` in `s`.
pub open spec fn count_char(s: Seq<char>, c: char) -> nat
    decreases s.len(),
{
    if s.len() == 0 {
        0
    } else {
        count_char(s.drop_last(), c) + if s.last() == c {
            1nat
        } else {
            0nat
        }
    }
}

/// The last character of the line, if any.
pub open spec fn spec_last(s: Seq<char>) -> Option<char> {
    if s.len() == 0 {
        Option::None
    } else {
        Option::Some(s.last())
    }
}

/// The formation rules: whether `c` may follow `last` on the line `input`.
///
/// A dot goes by [`dot_allowed`] on the whole line.  Otherwise: after `)`
/// only a binary operator; after a binary operator or a dot only a digit;
/// after a digit a digit or a binary operator; after `(` a digit, a dot or
/// a minus sign; on an empty line a digit or a minus sign; after anything
/// else, anything.
pub open spec fn spec_can_add(input: Seq<char>, last: Option<char>, c: char) -> bool {
    if c == '.' {
        dot_allowed(input)
    } else {
        match last {
            Option::Some(l) => if l == ')' {
                is_binary_op_char(c)
            } else if is_binary_op_char(l) {
                is_digit_char(c)
            } else if l == '.' {
                is_digit_char(c)
            } else if is_digit_char(l) {
                is_digit_char(c) || is_binary_op_char(c)
            } else if l == '(' {
                is_digit_char(c) || c == '.' || c == '-'
            } else {
                true
            },
            Option::None => is_digit_char(c) || c == '-',
        }
    }
}

/// The line after a pending clear is honoured.
pub open spec fn after_reset(s: Seq<char>, clear: bool) -> Seq<char> {
    if clear {
        Seq::empty()
    } else {
        s
    }
}

/// What the line becomes when `c` is appended: a pending clear first empties
/// the line, and the line is capped at 20 characters.
pub open spec fn spec_add_char(text: Seq<char>, clear: bool, c: char) -> Seq<char> {
    let base = after_reset(text, clear);
    if base.len() < 20 {
        base.push(c)
    } else {
        base
    }
}

/// A click on a character button: a pending clear empties the line first,
/// then the character is appended only if the formation rules admit it.
pub open spec fn spec_button_click(text: Seq<char>, clear: bool, c: char) -> Seq<char> {
    let base = after_reset(text, clear);
    if spec_can_add(base, spec_last(base), c) {
        spec_add_char(base, false, c)
    } else {
        base
    }
}

/// A click on the parenthesis button.  After an operator, a `(` or on an
/// empty line it opens a group; with more groups open than closed it closes
/// one; otherwise it opens a product with a group, `x(`, except that a
/// pending clear drops the `x`.
pub open spec fn spec_paren_click(text: Seq<char>, clear: bool) -> Seq<char> {
    let last = spec_last(text);
    if last is None || (last matches Option::Some(l) && (is_binary_op_char(l) || l == '(')) {
        spec_add_char(text, clear, '(')
    } else if count_char(text, '(') > count_char(text, ')') {
        spec_add_char(text, clear, ')')
    } else if !clear {
        spec_add_char(spec_add_char(text, false, 'x'), false, '(')
    } else {
        spec_add_char(text, true, '(')
    }
}

impl MyApp {
    /// The characters on the input line.
    pub closed spec fn text(&self) -> Seq<char> {
        self.input@
    }

    /// Whether the next keystroke clears the line first (set after a result
    /// was installed).
    pub closed spec fn pending_clear(&self) -> bool {
        self.clear
    }

    /// Decide the formation rules, exactly [`spec_can_add`].
    pub fn can_add_char(&self, last_char: Option<char>, new_char: char) -> (b: bool)
        ensures
            b == spec_can_add(self.text(), last_char, new_char),
    {
        if new_char == '.' {
            let mut dot: bool = true;
            let mut i: usize = 0;
            while i < self.input.len()
                invariant
                    i <= self.input.len(),
                    dot == dot_allowed(self.input@.take(i as int)),
                decreases self.input.len() - i,
            {
                let c = self.input[i];
                proof {
                    assert(self.input@.take(i as int + 1).drop_last() =~= self.input@.take(
                        i as int,
                    ));
                    assert(self.input@.take(i as int + 1).last() == self.input@[i as int]);
                }
                if c == '.' {
                    dot = false;
                } else if c == '+' || c == '-' || c == 'x' || c == '/' || c == '%' {
                    dot = true;
                }
                i = i + 1;
            }
            proof {
                assert(self.input@.take(self.input@.len() as int) =~= self.input@);
            }
            return dot;
        }
        match last_char {
            Option::Some(l) => {
                if l == ')' {
                    new_char == '+' || new_char == '-' || new_char == 'x' || new_char == '/'
                        || new_char == '%'
                } else if l == '+' || l == '-' || l == 'x' || l == '/' || l == '%' {
                    '0' <= new_char && new_char <= '9'
                } else if l == '.' {
                    '0' <= new_char && new_char <= '9'
                } else if '0' <= l && l <= '9' {
                    ('0' <= new_char && new_char <= '9') || new_char == '+' || new_char == '-'
                        || new_char == 'x' || new_char == '/' || new_char == '%'
                } else if l == '(' {
                    ('0' <= new_char && new_char <= '9') || new_char == '.' || new_char == '-'
                } else {
                    true
                }
            },
            Option::None => ('0' <= new_char && new_char <= '9') || new_char == '-',
        }
    }

    /// Append a character, exactly [`spec_add_char`]: a pending clear first
    /// empties the line, and nothing is appended to a full line of 20.
    pub fn add_char(&mut self, c: char)
        ensures
            final(self).text() == spec_add_char(old(self).text(), old(self).pending_clear(), c),
            final(self).pending_clear() == false,
    {
        if self.clear {
            self.input = Vec::new();
            self.clear = false;
        }
        if self.input.len() < 20 {
            self.input.push(c);
        }
    }

    /// A character button was clicked: honour a pending clear, then append
    /// the character only if the formation rules admit it, exactly
    /// [`spec_button_click`].
    pub fn handle_button_click(&mut self, c: char)
        ensures
            final(self).text() == spec_button_click(
                old(self).text(),
                old(self).pending_clear(),
                c,
            ),
            final(self).pending_clear() == false,
    {
        if self.clear {
            self.input = Vec::new();
            self.clear = false;
        }
        let last = if self.input.len() == 0 {
            Option::None
        } else {
            Option::Some(self.input[self.input.len() - 1])
        };
        if self.can_add_char(last, c) {
            self.add_char(c);
        }
    }

    /// The parenthesis button was clicked, exactly [`spec_paren_click`].
    pub fn handle_paren_click(&mut self)
        ensures
            final(self).text() == spec_paren_click(old(self).text(), old(self).pending_clear()),
            final(self).pending_clear() == false,
    {
        let opens_group = if self.input.len() == 0 {
            true
        } else {
            let l = self.input[self.input.len() - 1];
            l == '+' || l == '/' || l == 'x' || l == '-' || l == '%' || l == '('
        };
        if opens_group {
            self.add_char('(');
        } else {
            let opens = count_occurrences(&self.input, '(');
            let closes = count_occurrences(&self.input, ')');
            if opens > closes {
                self.add_char(')');
            } else {
                if !self.clear {
                    self.add_char('x');
                }
                self.add_char('(');
            }
        }
    }

    /// The backspace button: with a clear pending the whole line goes,
    /// otherwise the last character; the pending flag stays as it was.
    pub fn handle_backspace(&mut self)
        ensures
            final(self).pending_clear() == old(self).pending_clear(),
            final(self).text() == (if old(self).pending_clear() {
                Seq::<char>::empty()
            } else if old(self).text().len() > 0 {
                old(self).text().drop_last()
            } else {
                old(self).text()
            }),
    {
        if self.clear {
            self.input = Vec::new();
        } else {
            self.input.pop();
        }
    }

    /// The clear button: the line is emptied; the pending flag stays.
    pub fn handle_clear(&mut self)
        ensures
            final(self).text() == Seq::<char>::empty(),
            final(self).pending_clear() == old(self).pending_clear(),
    {
        self.input = Vec::new();
    }

    /// Install a computed result or an error message as the new line, to be
    /// cleared by the next keystroke.
    pub fn set_result(&mut self, text: Vec<char>)
        ensures
            final(self).text() == text@,
            final(self).pending_clear() == true,
    {
        self.input = text;
        self.clear = true;
    }

    /// The current input line, for display.
    pub fn input_chars(&self) -> (r: Vec<char>)
        ensures
            r@ == self.text(),
    {
        copy_chars(&self.input)
    }
}

impl Default for MyApp {
    /// An empty line with no clear pending.
    fn default() -> (r: Self)
        ensures
            r.text() == Seq::<char>::empty(),
            r.pending_clear() == false,
    {
        MyApp { input: Vec::new(), clear: false }
    }
}

/// Count occurrences of `c`, exactly [`count_char`].
fn count_occurrences(v: &Vec<char>, c: char) -> (n: usize)
    ensures
        n == count_char(v@, c),
{
    let mut n: usize = 0;
    let mut i: usize = 0;
    while i < v.len()
        invariant
            i <= v.len(),
            n <= i,
            n == count_char(v@.take(i as int), c),
        decreases v.len() - i,
    {
        proof {
            assert(v@.take(i as int + 1).drop_last() =~= v@.take(i as int));
            assert(v@.take(i as int + 1).last() == v@[i as int]);
        }
        if v[i] == c {
            n = n + 1;
        }
        i = i + 1;
    }
    proof {
        assert(v@.take(v@.len() as int) =~= v@);
    }
    n
}


/// Law: no editing step grows the line past its cap of 20 characters.
pub proof fn lemma_line_stays_capped(text: Seq<char>, clear: bool, c: char)
    requires
        text.len() <= 20,
    ensures
        spec_add_char(text, clear, c).len() <= 20,
        spec_button_click(text, clear, c).len() <= 20,
        spec_paren_click(text, clear).len() <= 20,
{
}

} // verus!
