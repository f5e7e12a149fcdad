//! The help-message builder: rows are registered in order, column widths
//! are derived once from the whole set, and every row is rendered with its
//! dash decoration and wrapped description.

use vstd::prelude::*;
use vstd::string::StrSliceExecFns;
use vstd::string::StringExecFns;

use crate::enums::display_length;
use crate::enums::Parameter;
use crate::enums::DASHED;
use crate::text::pad_append;
use crate::text::pad_to;
use crate::wrap::wrap_field;
use crate::wrap::wrap_spec;

verus! {

/// Unit of a help message: one row's names, description, parameter kind
/// and dash style. The texts are owned by the row.
#[derive(Clone)]
pub struct Command {
    pub long_command: String,
    pub short_command: String,
    pub description: String,
    pub parameter_name: Parameter,
    pub dash_status: DASHED,
}

impl Command {
    pub fn new(
        long_command: String,
        short_command: String,
        description: String,
        parameter_name: Parameter,
        dash_status: DASHED,
    ) -> (r: Self)
        ensures
            r.long_command == long_command,
            r.short_command == short_command,
            r.description == description,
            r.parameter_name == parameter_name,
            r.dash_status == dash_status,
    {
        Self { long_command, short_command, description, parameter_name, dash_status }
    }
}

impl Default for Command {
    fn default() -> (r: Self)
        ensures
            r.long_command@ == Seq::<char>::empty(),
            r.short_command@ == Seq::<char>::empty(),
            r.description@ == Seq::<char>::empty(),
            r.parameter_name == Parameter::NO,
            r.dash_status == DASHED::YES,
    {
        Command {
            long_command: String::new(),
            short_command: String::new(),
            description: String::new(),
            parameter_name: Parameter::NO,
            dash_status: DASHED::YES,
        }
    }
}

/// The four derived column widths: each is the largest character count of
/// its field over all rows, with fixed room reserved on the first three
/// for dash prefixes and bracket decoration.
pub struct ColumnWidths {
    pub short: usize,
    pub long: usize,
    pub parameter: usize,
    pub description: usize,
}

/// The larger of two counts.
pub open spec fn nmax(a: nat, b: nat) -> nat {
    if a > b {
        a
    } else {
        b
    }
}

/// The four base widths of an entry sequence, before padding constants:
/// the largest short-name, long-name, parameter and description character
/// counts, in that order; all zero for the empty sequence.
pub open spec fn widths_base(s: Seq<Command>) -> (nat, nat, nat, nat)
    decreases s.len(),
{
    if s.len() == 0 {
        (0, 0, 0, 0)
    } else {
        let rest = widths_base(s.drop_last());
        let t = s.last();
        (
            nmax(rest.0, t.short_command@.len()),
            nmax(rest.1, t.long_command@.len()),
            nmax(rest.2, display_length(t.parameter_name)),
            nmax(rest.3, t.description@.len()),
        )
    }
}

/// The column widths of an entry sequence: the base widths plus one
/// reserved column for the short dash and two each for the long dashes
/// and the parameter brackets.
pub open spec fn widths_of(s: Seq<Command>) -> ColumnWidths {
    ColumnWidths {
        short: (widths_base(s).0 + 1) as usize,
        long: (widths_base(s).1 + 2) as usize,
        parameter: (widths_base(s).2 + 2) as usize,
        description: widths_base(s).3 as usize,
    }
}

/// The machine bound that the width arithmetic needs: the padded widths
/// and the indentation they imply stay within `usize`.
pub open spec fn widths_fit(s: Seq<Command>) -> bool {
    widths_base(s).0 + widths_base(s).1 + widths_base(s).2 + 14 <= usize::MAX
}

/// The machine bound for rendering: the widths fit, and the longest
/// description leaves room for one wrap window.
pub open spec fn build_fits(s: Seq<Command>) -> bool {
    widths_fit(s) && widths_base(s).3 + 40 <= usize::MAX
}

/// Every entry's field counts are bounded by the base widths.
pub proof fn lemma_widths_base_bound(s: Seq<Command>, i: int)
    requires
        0 <= i < s.len(),
    ensures
        s[i].short_command@.len() <= widths_base(s).0,
        s[i].long_command@.len() <= widths_base(s).1,
        display_length(s[i].parameter_name) <= widths_base(s).2,
        s[i].description@.len() <= widths_base(s).3,
    decreases s.len(),
{
    if i < s.len() - 1 {
        lemma_widths_base_bound(s.drop_last(), i);
        assert(s.drop_last()[i] == s[i]);
    }
}

/// The base widths of a prefix never exceed those of the whole sequence.
pub proof fn lemma_widths_base_prefix(s: Seq<Command>, i: int)
    requires
        0 <= i <= s.len(),
    ensures
        widths_base(s.take(i)).0 <= widths_base(s).0,
        widths_base(s.take(i)).1 <= widths_base(s).1,
        widths_base(s.take(i)).2 <= widths_base(s).2,
        widths_base(s.take(i)).3 <= widths_base(s).3,
    decreases s.len() - i,
{
    if i == s.len() {
        assert(s.take(i) =~= s);
    } else {
        lemma_widths_base_prefix(s, i + 1);
        assert(s.take(i + 1).drop_last() =~= s.take(i));
        assert(s.take(i + 1).last() == s[i]);
    }
}

/// The three-space gap between columns.
pub open spec fn gap() -> Seq<char> {
    seq![' ', ' ', ' ']
}

/// The indentation of a wrapped continuation line: the three name columns
/// plus the nine characters of gaps and reserve before the description.
pub open spec fn indent_of(w: ColumnWidths) -> nat {
    (w.short + w.long + w.parameter + 9) as nat
}

/// The rendered parameter token: square brackets for an optional one,
/// angle brackets for a required one, nothing otherwise.
pub open spec fn param_render(p: Parameter) -> Seq<char> {
    match p {
        Parameter::OPTIONAL(s) => seq!['['] + s@ + seq![']'],
        Parameter::REQUIRED(s) => seq!['<'] + s@ + seq!['>'],
        Parameter::NO => Seq::empty(),
    }
}

/// One formatted row: the four columns each left-justified to their
/// width, separated by three-space gaps, the description wrapped to forty
/// characters, and one trailing newline.
pub open spec fn row_text(
    short: Seq<char>,
    long: Seq<char>,
    param: Seq<char>,
    desc: Seq<char>,
    w: ColumnWidths,
) -> Seq<char> {
    pad_to(short, w.short as nat) + gap() + pad_to(long, w.long as nat) + gap() + pad_to(
        param,
        w.parameter as nat,
    ) + gap() + pad_to(wrap_spec(desc, 40, indent_of(w)), w.description as nat) + seq!['\n']
}

/// The short name after dash decoration: a dash prefix for a non-empty
/// dashed name, a single blank for an undashed one.
pub open spec fn dec_short(c: Command) -> Seq<char> {
    match c.dash_status {
        DASHED::YES => if c.short_command@.len() == 0 {
            c.short_command@
        } else {
            seq!['-'] + c.short_command@
        },
        DASHED::NO => seq![' '] + c.short_command@,
    }
}

/// The long name after dash decoration: a double dash for a non-empty
/// dashed name, two blanks for an undashed one.
pub open spec fn dec_long(c: Command) -> Seq<char> {
    match c.dash_status {
        DASHED::YES => if c.long_command@.len() == 0 {
            c.long_command@
        } else {
            seq!['-', '-'] + c.long_command@
        },
        DASHED::NO => seq![' ', ' '] + c.long_command@,
    }
}

/// The row an entry contributes to the final message, dash decoration
/// applied.
pub open spec fn entry_row(c: Command, w: ColumnWidths) -> Seq<char> {
    row_text(dec_short(c), dec_long(c), param_render(c.parameter_name), c.description@, w)
}

/// The rows of an entry sequence, concatenated in order.
pub open spec fn rows_spec(s: Seq<Command>, w: ColumnWidths) -> Seq<char>
    decreases s.len(),
{
    if s.len() == 0 {
        Seq::empty()
    } else {
        rows_spec(s.drop_last(), w) + entry_row(s.last(), w)
    }
}

/// The final help message of an entry sequence: its rows in registration
/// order, under the widths derived from the whole sequence.
pub open spec fn build_spec(s: Seq<Command>) -> Seq<char> {
    rows_spec(s, widths_of(s))
}

/// Structure for building a help message: entries accumulate in
/// registration order until `build` renders them all at once.
pub struct HelpMessageBuilder {
    commands: Vec<Command>,
}

impl View for HelpMessageBuilder {
    type V = Seq<Command>;

    closed spec fn view(&self) -> Seq<Command> {
        self.commands@
    }
}

impl Default for HelpMessageBuilder {
    fn default() -> (r: Self)
        ensures
            r@ == Seq::<Command>::empty(),
    {
        HelpMessageBuilder { commands: Vec::new() }
    }
}

/// Applies the dash decoration of one row to fresh copies of its texts.
fn decorate(cmd: &Command) -> (r: Command)
    ensures
        r.short_command@ == dec_short(*cmd),
        r.long_command@ == dec_long(*cmd),
        r.description@ == cmd.description@,
        param_render(r.parameter_name) == param_render(cmd.parameter_name),
        display_length(r.parameter_name) == display_length(cmd.parameter_name),
{
    let short: String;
    let long: String;
    match &cmd.dash_status {
        DASHED::YES => {
            if cmd.long_command.as_str().unicode_len() > 0 {
                long = String::from_str("--").concat(cmd.long_command.as_str());
            } else {
                long = String::from_str(cmd.long_command.as_str());
            }
            if cmd.short_command.as_str().unicode_len() > 0 {
                short = String::from_str("-").concat(cmd.short_command.as_str());
            } else {
                short = String::from_str(cmd.short_command.as_str());
            }
        },
        DASHED::NO => {
            short = String::from_str(" ").concat(cmd.short_command.as_str());
            long = String::from_str("  ").concat(cmd.long_command.as_str());
        },
    }
    let parameter_name = match &cmd.parameter_name {
        Parameter::OPTIONAL(p) => Parameter::OPTIONAL(String::from_str(p.as_str())),
        Parameter::REQUIRED(p) => Parameter::REQUIRED(String::from_str(p.as_str())),
        Parameter::NO => Parameter::NO,
    };
    let dash_status = match &cmd.dash_status {
        DASHED::YES => DASHED::YES,
        DASHED::NO => DASHED::NO,
    };
    let r = Command {
        long_command: long,
        short_command: short,
        description: String::from_str(cmd.description.as_str()),
        parameter_name,
        dash_status,
    };
    proof {
        reveal_strlit("-");
        reveal_strlit("--");
        reveal_strlit(" ");
        reveal_strlit("  ");
        assert(r.short_command@ =~= dec_short(*cmd));
        assert(r.long_command@ =~= dec_long(*cmd));
        assert(param_render(r.parameter_name) =~= param_render(cmd.parameter_name));
    }
    r
}

impl HelpMessageBuilder {
    /// Add a command to the help message; entries keep their registration
    /// order.
    pub fn command(
        self,
        short_command: &str,
        long_command: &str,
        parameter_name: Parameter,
        description: &str,
        dash_status: DASHED,
    ) -> (r: Self)
        ensures
            r@.len() == self@.len() + 1,
            forall|i: int| 0 <= i < self@.len() ==> r@[i] == self@[i],
            r@.last().short_command@ == short_command@,
            r@.last().long_command@ == long_command@,
            r@.last().description@ == description@,
            r@.last().parameter_name == parameter_name,
            r@.last().dash_status == dash_status,
    {
        let mut s = self;
        s.commands.push(
            Command::new(
                long_command.to_owned(),
                short_command.to_owned(),
                description.to_owned(),
                parameter_name,
                dash_status,
            ),
        );
        s
    }

    /// Scans all entries once and derives the four column widths.
    pub fn max_width(commands: &Vec<Command>) -> (r: ColumnWidths)
        requires
            widths_fit(commands@),
        ensures
            r.short as nat == widths_base(commands@).0 + 1,
            r.long as nat == widths_base(commands@).1 + 2,
            r.parameter as nat == widths_base(commands@).2 + 2,
            r.description as nat == widths_base(commands@).3,
            r == widths_of(commands@),
    {
        let ghost all = commands@;
        let mut short: usize = 0;
        let mut long: usize = 0;
        let mut parameter: usize = 0;
        let mut description: usize = 0;
        let mut i: usize = 0;
        while i < commands.len()
            invariant
                i <= commands.len(),
                commands@ == all,
                widths_fit(all),
                short as nat == widths_base(all.take(i as int)).0,
                long as nat == widths_base(all.take(i as int)).1,
                parameter as nat == widths_base(all.take(i as int)).2,
                description as nat == widths_base(all.take(i as int)).3,
            decreases commands.len() - i,
        {
            proof {
                lemma_widths_base_prefix(all, i + 1);
                assert(all.take(i + 1).drop_last() =~= all.take(i as int));
                assert(all.take(i + 1).last() == all[i as int]);
            }
            let cmd = &commands[i];
            let l = cmd.short_command.as_str().unicode_len();
            if l > short {
                short = l;
            }
            let l = cmd.long_command.as_str().unicode_len();
            if l > long {
                long = l;
            }
            let l = cmd.parameter_name.get_len();
            if l > parameter {
                parameter = l;
            }
            let l = cmd.description.as_str().unicode_len();
            if l > description {
                description = l;
            }
            i = i + 1;
        }
        proof {
            assert(all.take(commands@.len() as int) =~= all);
        }
        ColumnWidths { short: short + 1, long: long + 2, parameter: parameter + 2, description }
    }

    /// Wraps one description field to `max_character_number` columns,
    /// indenting continuation lines under the description column.
    pub fn field_wrapper(max_widths: &ColumnWidths, field: &str, max_character_number: usize) -> (r:
        String)
        requires
            max_character_number >= 1,
            field@.len() + max_character_number <= usize::MAX,
            max_widths.short + max_widths.long + max_widths.parameter + 9 <= usize::MAX,
        ensures
            r@ == wrap_spec(field@, max_character_number as nat, indent_of(*max_widths)),
    {
        let ind = max_widths.short + max_widths.long + max_widths.parameter + 9;
        wrap_field(field, max_character_number, ind)
    }

    /// Renders one dash-decorated entry as a formatted row block.
    pub fn craft(command: Command, max_widths: &ColumnWidths) -> (r: String)
        requires
            command.description@.len() + 40 <= usize::MAX,
            max_widths.short + max_widths.long + max_widths.parameter + 9 <= usize::MAX,
        ensures
            r@ == row_text(
                command.short_command@,
                command.long_command@,
                param_render(command.parameter_name),
                command.description@,
                *max_widths,
            ),
    {
        let mut message = String::new();
        pad_append(&mut message, command.short_command.as_str(), max_widths.short);
        message.append("   ");
        pad_append(&mut message, command.long_command.as_str(), max_widths.long);
        message.append("   ");
        let parameter = match &command.parameter_name {
            Parameter::OPTIONAL(param) => String::from_str("[").concat(param.as_str()).concat("]"),
            Parameter::REQUIRED(param) => String::from_str("<").concat(param.as_str()).concat(">"),
            Parameter::NO => String::new(),
        };
        proof {
            reveal_strlit("[");
            reveal_strlit("]");
            reveal_strlit("<");
            reveal_strlit(">");
            assert(parameter@ =~= param_render(command.parameter_name));
        }
        pad_append(&mut message, parameter.as_str(), max_widths.parameter);
        message.append("   ");
        let description_str = Self::field_wrapper(max_widths, command.description.as_str(), 40);
        pad_append(&mut message, description_str.as_str(), max_widths.description);
        message.append("\n");
        proof {
            reveal_strlit("   ");
            reveal_strlit("\n");
            assert(message@ =~= row_text(
                command.short_command@,
                command.long_command@,
                param_render(command.parameter_name),
                command.description@,
                *max_widths,
            ));
        }
        message
    }

    /// Build the help message string: the widths are derived from every
    /// entry first, then each entry is decorated and rendered in
    /// registration order. Consumes the builder.
    pub fn build(self) -> (r: String)
        requires
            build_fits(self@),
        ensures
            r@ == build_spec(self@),
    {
        let ghost all = self@;
        let HelpMessageBuilder { commands } = self;
        let max_widths = Self::max_width(&commands);
        let mut result = String::new();
        let mut i: usize = 0;
        while i < commands.len()
            invariant
                i <= commands.len(),
                commands@ == all,
                build_fits(all),
                max_widths == widths_of(all),
                result@ == rows_spec(all.take(i as int), widths_of(all)),
            decreases commands.len() - i,
        {
            proof {
                lemma_widths_base_bound(all, i as int);
            }
            let cmd = &commands[i];
            let decorated = decorate(cmd);
            let row = Self::craft(decorated, &max_widths);
            result.append(row.as_str());
            proof {
                assert(all.take(i + 1).drop_last() =~= all.take(i as int));
                assert(all.take(i + 1).last() == all[i as int]);
                assert(row@ == entry_row(all[i as int], widths_of(all)));
            }
            i = i + 1;
        }
        proof {
            assert(all.take(commands@.len() as int) =~= all);
        }
        result
    }
}

} // verus!
