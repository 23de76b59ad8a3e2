//! The menu: choosing a program file and typing its input tape.

use vstd::prelude::*;
use vstd::string::StringExecFns;
use crate::ram::machine::RamMachine;
use crate::ram::state::MachineState;
use crate::ram::types::Number;
use crate::text::convert::{chars_of, string_of};
use crate::text::number::{
    char_is_digit, is_digit, is_wide_numeral, read_signed, signed_numeral,
};
use crate::text::search::starts_with;
use crate::text::space::{trim, trimmed};
use crate::text::split::{
    after_last, ends_with, has_suffix, parts, remove_all, rest_after_last, split_all, without_all,
};
use crate::ui::key::Key;

verus! {

/// What the menu waits for.
#[derive(Debug, Clone, Copy, PartialEq, Eq, Structural)]
pub enum MenuState {
    SelectingFile,
    SpecifyingInput,
}

/// What the caller is to do after a key.
#[derive(Debug)]
pub enum MenuHandleResult {
    /// Nothing: wait for the next key.
    Continue,
    /// Start a simulation of the machine under the given name.
    Machine(String, RamMachine),
    /// Leave the program.
    Exit,
    /// Read the program file at the given path, and hand what came of it to
    /// [`Menu::machine_loaded`].
    Load(String),
}

/// The mathematical content of a [`MenuHandleResult`].
pub enum MenuHandleResultView {
    Continue,
    Machine(Seq<char>, MachineState),
    Exit,
    Load(Seq<char>),
}

impl View for MenuHandleResult {
    type V = MenuHandleResultView;

    open spec fn view(&self) -> MenuHandleResultView {
        match self {
            MenuHandleResult::Continue => MenuHandleResultView::Continue,
            MenuHandleResult::Machine(name, machine) => MenuHandleResultView::Machine(
                name@,
                machine@,
            ),
            MenuHandleResult::Exit => MenuHandleResultView::Exit,
            MenuHandleResult::Load(path) => MenuHandleResultView::Load(path@),
        }
    }
}

/// The separator that the menu writes between two values of the tape.
pub open spec fn separator() -> Seq<char> {
    seq![',', ' ']
}

/// The typed tape after the key `c`. Digits extend the last value, but add
/// no second digit to a zero and no zero after a minus sign; a comma or a
/// blank ends a value that has a digit; a minus sign begins a value.
pub open spec fn typed(input: Seq<char>, c: char) -> Seq<char> {
    if is_digit(c) {
        if (ends_with(input, seq!['-']) && c == '0') || after_last(input, separator())
            == seq!['0'] {
            input
        } else {
            input.push(c)
        }
    } else if c == ',' || c == ' ' {
        if input.len() == 0 || ends_with(input, separator()) || ends_with(input, seq!['-']) {
            input
        } else {
            input + separator()
        }
    } else if c == '-' {
        if input.len() == 0 || ends_with(input, separator()) {
            input.push('-')
        } else {
            input
        }
    } else {
        input
    }
}

/// The typed tape after the backspace key: a separator goes as a whole,
/// anything else character by character.
pub open spec fn erased(input: Seq<char>) -> Seq<char> {
    if ends_with(input, separator()) {
        input.subrange(0, input.len() - 2)
    } else if input.len() > 0 {
        input.drop_last()
    } else {
        input
    }
}

/// The message for a value that is a number, but none of 32 bits.
pub open spec fn out_of_range_message(value: Seq<char>) -> Seq<char> {
    "Input value "@ + value + " is too "@ + (if starts_with(value, seq!['-']) {
        "small"@
    } else {
        "large"@
    }) + "."@
}

/// The value that one entry of the typed tape stands for, or the message
/// that says why it stands for none.
pub open spec fn entry_value(entry: Seq<char>) -> Result<Number, Seq<char>> {
    let t = trimmed(entry);
    match signed_numeral(t) {
        Some(v) => if Number::MIN <= v <= Number::MAX {
            Ok(v as Number)
        } else if i64::MIN <= v <= i64::MAX {
            Err(out_of_range_message(t))
        } else {
            Err("Invalid input."@)
        },
        None => Err("Invalid input."@),
    }
}

/// The values of the entries, or the message of the first entry that
/// stands for no value.
pub open spec fn entry_values(entries: Seq<Seq<char>>) -> Result<Seq<Number>, Seq<char>>
    decreases entries.len(),
{
    if entries.len() == 0 {
        Ok(Seq::empty())
    } else {
        match entry_values(entries.drop_last()) {
            Ok(values) => match entry_value(entries.last()) {
                Ok(v) => Ok(values.push(v)),
                Err(message) => Err(message),
            },
            Err(message) => Err(message),
        }
    }
}

/// The tape that the typed text stands for: its entries between commas.
/// Nothing typed is the empty tape.
pub open spec fn tape_of(input: Seq<char>) -> Result<Seq<Number>, Seq<char>> {
    if input.len() == 0 {
        Ok(Seq::empty())
    } else if ends_with(trimmed(input), seq![',']) {
        Err("Input cannot end with a comma."@)
    } else {
        entry_values(parts(input, seq![',']))
    }
}

/// The name under which the program at `path` runs: the file's name
/// without `.ram`.
pub open spec fn machine_name(path: Seq<char>) -> Seq<char> {
    without_all(after_last(path, seq!['/']), program_ending())
}

/// The ending of the name of a program file.
pub open spec fn program_ending() -> Seq<char> {
    seq!['.', 'r', 'a', 'm']
}

/// Whether `path` names a program file: the name of the file ends with
/// `.ram`, after one other character at least.
pub open spec fn is_program_path(path: Seq<char>) -> bool {
    let name = after_last(path, seq!['/']);
    ends_with(name, program_ending()) && name.len() > program_ending().len()
}

/// Once an entry stands for no value, the entries after it do not matter.
proof fn lemma_entry_error_stays(entries: Seq<Seq<char>>, k: int)
    requires
        0 <= k <= entries.len(),
        entry_values(entries.take(k)) is Err,
    ensures
        entry_values(entries) == entry_values(entries.take(k)),
    decreases entries.len() - k,
{
    if k < entries.len() {
        assert(entries.take(k + 1).drop_last() == entries.take(k));
        lemma_entry_error_stays(entries, k + 1);
    } else {
        assert(entries.take(k) == entries);
    }
}

/// The text that an optional string holds.
pub open spec fn optional_text(s: Option<String>) -> Option<Seq<char>> {
    match s {
        Some(s) => Some(s@),
        None => None,
    }
}

/// The texts that the strings hold.
pub open spec fn texts_of(strings: Seq<String>) -> Seq<Seq<char>> {
    strings.map_values(|s: String| s@)
}

/// What the menu holds.
pub struct MenuView {
    /// The tape as typed so far.
    pub input: Seq<char>,
    /// The message to show, if any.
    pub error: Option<Seq<char>>,
    /// The paths of the program files on offer.
    pub found_files: Seq<Seq<char>>,
    pub state: MenuState,
    /// The position of the chosen file among those on offer.
    pub selected_file: Option<nat>,
    /// The machine of the chosen file, while its tape is being typed.
    pub selected_machine: Option<MachineState>,
}

/// The menu: a list of program files to choose from, then a line to type
/// the input tape on.
#[derive(Debug)]
pub struct Menu {
    input: Vec<char>,
    error: Option<String>,
    found_files: Vec<String>,
    state: MenuState,
    selected_file: Option<usize>,
    selected_machine: Option<RamMachine>,
}

impl View for Menu {
    type V = MenuView;

    closed spec fn view(&self) -> MenuView {
        MenuView {
            input: self.input@,
            error: optional_text(self.error),
            found_files: texts_of(self.found_files@),
            state: self.state,
            selected_file: match self.selected_file {
                Some(i) => Some(i as nat),
                None => None,
            },
            selected_machine: match self.selected_machine {
                Some(machine) => Some(machine@),
                None => None,
            },
        }
    }
}

impl MenuView {
    /// The menu that offers the given files, with none chosen and nothing
    /// typed.
    pub open spec fn initial(found_files: Seq<Seq<char>>) -> MenuView {
        MenuView {
            input: Seq::empty(),
            error: None,
            found_files,
            state: MenuState::SelectingFile,
            selected_file: None,
            selected_machine: None,
        }
    }

    /// The chosen file is one of those on offer, and a machine is held only
    /// while a file is chosen.
    pub open spec fn wf(self) -> bool {
        &&& self.selected_file matches Some(i) ==> i < self.found_files.len()
        &&& self.selected_machine is Some ==> self.selected_file is Some
    }

    /// The menu with the given message to show.
    pub open spec fn with_error(self, message: Seq<char>) -> MenuView {
        MenuView { error: Some(message), ..self }
    }

    /// The menu with the given text on the tape line.
    pub open spec fn with_typed(self, input: Seq<char>) -> MenuView {
        MenuView { input, ..self }
    }

    /// Enter on the file list: the chosen file is to be loaded. Without a
    /// choice there is only a message.
    pub open spec fn file_confirmed(self) -> (MenuView, MenuHandleResultView) {
        match self.selected_file {
            Some(i) => (self, MenuHandleResultView::Load(self.found_files[i as int])),
            None => (self.with_error("No file selected"@), MenuHandleResultView::Continue),
        }
    }

    /// What came of loading the chosen file: its machine, for which the
    /// tape is typed next, or the message that says why there is none.
    pub open spec fn loaded(self, result: Result<MachineState, Seq<char>>) -> MenuView {
        match result {
            Ok(machine) => if self.selected_file is Some {
                MenuView {
                    error: None,
                    state: MenuState::SpecifyingInput,
                    selected_machine: Some(machine),
                    ..self
                }
            } else {
                self.with_error("No file selected"@)
            },
            Err(message) => self.with_error(message),
        }
    }

    /// Enter on the tape line: the machine leaves the menu with the typed
    /// tape as its input, under the name of its file, and the menu goes
    /// back to the file list. Where the typed text stands for no tape there
    /// is only a message.
    pub open spec fn input_confirmed(self) -> (MenuView, MenuHandleResultView) {
        match tape_of(self.input) {
            Ok(tape) => {
                let back = MenuView {
                    error: None,
                    state: MenuState::SelectingFile,
                    selected_machine: None,
                    ..self
                };
                match (self.selected_machine, self.selected_file) {
                    (Some(machine), Some(i)) => (
                        back,
                        MenuHandleResultView::Machine(
                            machine_name(self.found_files[i as int]),
                            MachineState { input: tape, ..machine },
                        ),
                    ),
                    _ => (
                        back.with_error("The machine somehow escaped"@),
                        MenuHandleResultView::Continue,
                    ),
                }
            },
            Err(message) => (self.with_error(message), MenuHandleResultView::Continue),
        }
    }

    /// What a key does while a file is chosen.
    pub open spec fn selecting_file(self, key: Key) -> (MenuView, MenuHandleResultView) {
        match key {
            Key::Up => (self.moved(-1), MenuHandleResultView::Continue),
            Key::Down => (self.moved(1), MenuHandleResultView::Continue),
            Key::Enter => self.file_confirmed(),
            Key::Esc => (self, MenuHandleResultView::Exit),
            _ => (self, MenuHandleResultView::Continue),
        }
    }

    /// What a key does while the tape is typed.
    pub open spec fn specifying_input(self, key: Key) -> (MenuView, MenuHandleResultView) {
        match key {
            Key::Char(c) => (self.with_typed(typed(self.input, c)), MenuHandleResultView::Continue),
            Key::Backspace => (self.with_typed(erased(self.input)), MenuHandleResultView::Continue),
            Key::Enter => self.input_confirmed(),
            Key::Esc => (
                MenuView { state: MenuState::SelectingFile, ..self },
                MenuHandleResultView::Continue,
            ),
            _ => (self, MenuHandleResultView::Continue),
        }
    }

    /// What a key does.
    pub open spec fn handled(self, key: Key) -> (MenuView, MenuHandleResultView) {
        match self.state {
            MenuState::SelectingFile => self.selecting_file(key),
            MenuState::SpecifyingInput => self.specifying_input(key),
        }
    }

    /// The choice after one step up (`direction` -1) or down (1): it moves
    /// if there is a file there. Without a choice, the first file is chosen.
    pub open spec fn moved(self, direction: int) -> MenuView {
        MenuView {
            error: None,
            selected_file: match self.selected_file {
                Some(i) => if 0 <= i + direction < self.found_files.len() {
                    Some((i + direction) as nat)
                } else {
                    Some(i)
                },
                None => if self.found_files.len() > 0 {
                    Some(0)
                } else {
                    None
                },
            },
            ..self
        }
    }
}

impl Menu {
    /// The chosen machine, if there is one, is well-formed.
    pub closed spec fn machine_wf(&self) -> bool {
        self.selected_machine matches Some(machine) ==> machine.wf()
    }

    /// The menu is in a state that its own functions can leave it in.
    pub open spec fn wf(&self) -> bool {
        self@.wf() && self.machine_wf()
    }

    /// A menu that offers the given files, with none chosen.
    pub fn new(found_files: Vec<String>) -> (menu: Menu)
        ensures
            menu.wf(),
            menu@ == MenuView::initial(texts_of(found_files@)),
    {
        Menu {
            input: Vec::new(),
            error: None,
            found_files,
            state: MenuState::SelectingFile,
            selected_file: None,
            selected_machine: None,
        }
    }

    /// The tape as typed so far.
    pub fn input(&self) -> (input: String)
        ensures
            input@ == self@.input,
    {
        string_of(self.input.as_slice())
    }

    /// The message to show, if any.
    pub fn error(&self) -> (error: &Option<String>)
        ensures
            optional_text(*error) == self@.error,
    {
        &self.error
    }

    /// The paths of the program files on offer.
    pub fn found_files(&self) -> (files: &Vec<String>)
        ensures
            texts_of(files@) == self@.found_files,
    {
        &self.found_files
    }

    /// What the menu waits for.
    pub fn state(&self) -> (state: MenuState)
        ensures
            state == self@.state,
    {
        self.state
    }

    /// The position of the chosen file among those on offer.
    pub fn selected_file(&self) -> (selected: Option<usize>)
        ensures
            match selected {
                Some(i) => self@.selected_file == Some(i as nat),
                None => self@.selected_file is None,
            },
    {
        self.selected_file
    }

    /// Moves the choice one file up (`direction` -1) or down (1), and
    /// clears the message.
    pub fn move_file_selection(&mut self, direction: i32)
        requires
            old(self).wf(),
        ensures
            final(self).wf(),
            final(self)@ == old(self)@.moved(direction as int),
    {
        self.error = None;
        match self.selected_file {
            Some(selected) => {
                let count = self.found_files.len();
                if direction >= 0 {
                    let step = direction as usize;
                    if step < count - selected {
                        self.selected_file = Some(selected + step);
                    }
                } else {
                    let step = (-(direction as i64)) as u64;
                    if step <= selected as u64 {
                        self.selected_file = Some(selected - step as usize);
                    }
                }
            },
            None => {
                if self.found_files.len() > 0 {
                    self.selected_file = Some(0);
                }
            },
        }
    }

    /// Reacts to a key.
    pub fn handle_input(&mut self, key: Key) -> (r: MenuHandleResult)
        requires
            old(self).wf(),
        ensures
            final(self).wf(),
            (final(self)@, r@) == old(self)@.handled(key),
            r matches MenuHandleResult::Machine(_, machine) ==> machine.wf(),
    {
        match self.state {
            MenuState::SelectingFile => self.handle_selecting_file(key),
            MenuState::SpecifyingInput => self.handle_specifying_input(key),
        }
    }

    /// Reacts to a key while a file is chosen.
    pub fn handle_selecting_file(&mut self, key: Key) -> (r: MenuHandleResult)
        requires
            old(self).wf(),
        ensures
            final(self).wf(),
            (final(self)@, r@) == old(self)@.selecting_file(key),
            !(r is Machine),
    {
        match key {
            Key::Up => {
                self.move_file_selection(-1);
                MenuHandleResult::Continue
            },
            Key::Down => {
                self.move_file_selection(1);
                MenuHandleResult::Continue
            },
            Key::Enter => self.confirm_file_selection(),
            Key::Esc => MenuHandleResult::Exit,
            _ => MenuHandleResult::Continue,
        }
    }

    /// Reacts to a key while the tape is typed.
    pub fn handle_specifying_input(&mut self, key: Key) -> (r: MenuHandleResult)
        requires
            old(self).wf(),
        ensures
            final(self).wf(),
            (final(self)@, r@) == old(self)@.specifying_input(key),
            r matches MenuHandleResult::Machine(_, machine) ==> machine.wf(),
    {
        match key {
            Key::Char(c) => {
                self.input_char(c);
                MenuHandleResult::Continue
            },
            Key::Backspace => {
                self.delete_char();
                MenuHandleResult::Continue
            },
            Key::Enter => self.confirm_input(),
            Key::Esc => {
                self.state = MenuState::SelectingFile;
                MenuHandleResult::Continue
            },
            _ => MenuHandleResult::Continue,
        }
    }

    /// Asks for the chosen file to be loaded; without a choice, leaves a
    /// message.
    pub fn confirm_file_selection(&mut self) -> (r: MenuHandleResult)
        requires
            old(self).wf(),
        ensures
            final(self).wf(),
            (final(self)@, r@) == old(self)@.file_confirmed(),
            !(r is Machine),
    {
        match self.selected_file {
            Some(selected) => {
                assert(self@.found_files[selected as int] == self.found_files@[selected as int]@);
                MenuHandleResult::Load(self.found_files[selected].clone())
            },
            None => {
                self.error = Some(String::from_str("No file selected"));
                MenuHandleResult::Continue
            },
        }
    }

    /// Takes what came of loading the chosen file: its machine, for which
    /// the tape is typed next, or the message that says why there is none.
    pub fn machine_loaded(&mut self, result: Result<RamMachine, String>)
        requires
            old(self).wf(),
            result matches Ok(machine) ==> machine.wf(),
        ensures
            final(self).wf(),
            final(self)@ == old(self)@.loaded(
                match result {
                    Ok(machine) => Ok(machine@),
                    Err(message) => Err(message@),
                },
            ),
    {
        match result {
            Ok(machine) => {
                if self.selected_file.is_some() {
                    self.error = None;
                    self.state = MenuState::SpecifyingInput;
                    self.selected_machine = Some(machine);
                } else {
                    self.error = Some(String::from_str("No file selected"));
                }
            },
            Err(message) => {
                self.error = Some(message);
            },
        }
    }

    /// Hands the machine out with the typed tape as its input, and goes
    /// back to the file list; where the typed text stands for no tape,
    /// leaves a message.
    pub fn confirm_input(&mut self) -> (r: MenuHandleResult)
        requires
            old(self).wf(),
        ensures
            final(self).wf(),
            (final(self)@, r@) == old(self)@.input_confirmed(),
            r matches MenuHandleResult::Machine(_, machine) ==> machine.wf(),
    {
        match self.parse_input() {
            Ok(input_tape) => {
                self.error = None;
                self.state = MenuState::SelectingFile;
                let machine = self.selected_machine.take();
                match (machine, self.selected_file) {
                    (Some(machine), Some(selected)) => {
                        assert(self@.found_files[selected as int]
                            == self.found_files@[selected as int]@);
                        let name = Menu::name_of(self.found_files[selected].as_str());
                        MenuHandleResult::Machine(name, machine.with_input(input_tape))
                    },
                    _ => {
                        self.error = Some(String::from_str("The machine somehow escaped"));
                        MenuHandleResult::Continue
                    },
                }
            },
            Err(message) => {
                self.error = Some(message);
                MenuHandleResult::Continue
            },
        }
    }

    /// Types the character `c` on the tape line.
    pub fn input_char(&mut self, c: char)
        ensures
            final(self)@ == old(self)@.with_typed(typed(old(self)@.input, c)),
            final(self).machine_wf() == old(self).machine_wf(),
    {
        let minus: [char; 1] = ['-'];
        let between: [char; 2] = [',', ' '];
        let zero: [char; 1] = ['0'];
        assert(minus@ =~= seq!['-']);
        assert(between@ =~= separator());
        if char_is_digit(c) {
            if has_suffix(self.input.as_slice(), minus.as_slice()) && c == '0' {
                return;
            }
            let last = rest_after_last(self.input.as_slice(), between.as_slice());
            if last.len() == 1 && last[0] == '0' {
                assert(last@ =~= seq!['0']);
                return;
            }
            self.input.push(c);
        } else if c == ',' || c == ' ' {
            if self.input.len() == 0 || has_suffix(self.input.as_slice(), between.as_slice())
                || has_suffix(self.input.as_slice(), minus.as_slice()) {
                return;
            }
            self.input.push(',');
            self.input.push(' ');
            assert(self.input@ =~= old(self).input@ + separator());
        } else if c == '-' {
            if self.input.len() == 0 || has_suffix(self.input.as_slice(), between.as_slice()) {
                self.input.push(c);
            }
        }
    }

    /// Takes back what was typed last on the tape line.
    pub fn delete_char(&mut self)
        ensures
            final(self)@ == old(self)@.with_typed(erased(old(self)@.input)),
            final(self).machine_wf() == old(self).machine_wf(),
    {
        let between: [char; 2] = [',', ' '];
        assert(between@ =~= separator());
        if has_suffix(self.input.as_slice(), between.as_slice()) {
            self.input.pop();
            self.input.pop();
            assert(self.input@ =~= old(self).input@.subrange(0, old(self).input@.len() - 2));
        } else {
            self.input.pop();
        }
    }

    /// The tape that the typed text stands for, or the message that says
    /// why it stands for none.
    pub fn parse_input(&self) -> (r: Result<Vec<Number>, String>)
        ensures
            match r {
                Ok(tape) => tape_of(self@.input) == Ok::<Seq<Number>, Seq<char>>(tape@),
                Err(message) => tape_of(self@.input) == Err::<Seq<Number>, Seq<char>>(message@),
            },
    {
        let comma: [char; 1] = [','];
        assert(comma@ =~= seq![',']);
        if self.input.len() == 0 {
            return Ok(Vec::new());
        }
        if has_suffix(trim(self.input.as_slice()), comma.as_slice()) {
            return Err(String::from_str("Input cannot end with a comma."));
        }
        let entries = split_all(self.input.as_slice(), comma.as_slice());
        let ghost all = parts(self.input@, seq![',']);
        let mut tape: Vec<Number> = Vec::new();
        let mut i: usize = 0;
        while i < entries.len()
            invariant
                i <= entries.len(),
                entries@.map_values(|part: &[char]| part@) == all,
                tape_of(self@.input) == entry_values(all),
                entry_values(all.take(i as int)) == Ok::<Seq<Number>, Seq<char>>(tape@),
            decreases entries.len() - i,
        {
            assert(all.take(i + 1).drop_last() == all.take(i as int));
            assert(all.take(i + 1).last() == entries@[i as int]@);
            match Menu::parse_entry(entries[i]) {
                Ok(value) => {
                    tape.push(value);
                },
                Err(message) => {
                    proof {
                        lemma_entry_error_stays(all, i + 1);
                    }
                    return Err(message);
                },
            }
            i += 1;
        }
        assert(all.take(entries.len() as int) == all);
        Ok(tape)
    }

    /// The value that one entry of the typed tape stands for, or the
    /// message that says why it stands for none.
    pub fn parse_entry(entry: &[char]) -> (r: Result<Number, String>)
        ensures
            match r {
                Ok(value) => entry_value(entry@) == Ok::<Number, Seq<char>>(value),
                Err(message) => entry_value(entry@) == Err::<Number, Seq<char>>(message@),
            },
    {
        let t = trim(entry);
        match read_signed(t) {
            Some(value) => Ok(value),
            None => {
                if is_wide_numeral(t) {
                    let mut message = String::from_str("Input value ");
                    let value = string_of(t);
                    message.append(value.as_str());
                    message.append(" is too ");
                    if t.len() > 0 && t[0] == '-' {
                        assert(t@.subrange(0, 1) =~= seq!['-']);
                        message.append("small");
                    } else {
                        assert(!starts_with(t@, seq!['-'])) by {
                            if starts_with(t@, seq!['-']) {
                                assert(t@.subrange(0, 1)[0] == '-');
                            }
                        }
                        message.append("large");
                    }
                    message.append(".");
                    Err(message)
                } else {
                    Err(String::from_str("Invalid input."))
                }
            },
        }
    }

    /// Whether `path` names a program file.
    pub fn is_program_file(path: &str) -> (r: bool)
        ensures
            r == is_program_path(path@),
    {
        let slash: [char; 1] = ['/'];
        let ending: [char; 4] = ['.', 'r', 'a', 'm'];
        assert(slash@ =~= seq!['/']);
        assert(ending@ =~= program_ending());
        let path = chars_of(path);
        let name = rest_after_last(path.as_slice(), slash.as_slice());
        has_suffix(name, ending.as_slice()) && name.len() > 4
    }

    /// The name under which the program at `path` runs.
    pub fn name_of(path: &str) -> (name: String)
        ensures
            name@ == machine_name(path@),
    {
        let slash: [char; 1] = ['/'];
        let ending: [char; 4] = ['.', 'r', 'a', 'm'];
        assert(slash@ =~= seq!['/']);
        assert(ending@ =~= program_ending());
        let path = chars_of(path);
        let file = rest_after_last(path.as_slice(), slash.as_slice());
        let name = remove_all(file, ending.as_slice());
        string_of(name.as_slice())
    }
}

} // verus!
