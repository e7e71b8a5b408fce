//! The help page: what a key press on it asks for, and the page's content
//! lines — the application details, a divider, and the grouped key-binding
//! descriptions.

use vstd::prelude::*;

use crate::text::{SpanColor, SpanModel, StyledLine};
use crate::util::{greedy_groups, group_strings_to_fit_width, join_with};

verus! {

/// A key press, reduced to what the help page reacts to.
#[derive(Clone, Copy, Debug, PartialEq, Eq, Structural)]
pub enum KeyInput {
    Esc,
    Backspace,
    Char(char),
    Other,
}

/// What the embedding application should do after a key press on the help
/// page.
#[derive(Clone, Copy, Debug, PartialEq, Eq, Structural)]
pub enum HelpAction {
    Quit,
    CloseHelp,
    ToggleHelp,
}

/// Identity of the application, shown at the top of the help page.
#[derive(Clone, Debug)]
pub struct AppInfo {
    pub name: String,
    pub description: String,
    pub version: String,
    pub homepage: String,
}

/// The help page: a list of key-binding descriptions to lay out.
#[derive(Debug)]
pub struct HelpPage {
    helps: Vec<String>,
}

impl View for HelpPage {
    type V = Seq<Seq<char>>;

    closed spec fn view(&self) -> Seq<Seq<char>> {
        self.helps@.map_values(|s: String| s@)
    }
}

/// A display line holding one unstyled span.
pub open spec fn plain_line_model(text: Seq<char>) -> Seq<SpanModel> {
    seq![SpanModel { content: text, color: SpanColor::Default }]
}

/// The empty display line.
pub open spec fn empty_line_model() -> Seq<SpanModel> {
    plain_line_model(Seq::empty())
}

/// The groups from `i` on, flattened, with an empty line after each group;
/// after the very last one only when `add_to_end` is set.
pub open spec fn spec_flatten_from(
    groups: Seq<Seq<Seq<SpanModel>>>,
    i: int,
    add_to_end: bool,
) -> Seq<Seq<SpanModel>>
    decreases groups.len() - i,
{
    if i < 0 || i >= groups.len() {
        Seq::empty()
    } else {
        groups[i] + (if add_to_end || i != groups.len() - 1 {
            seq![empty_line_model()]
        } else {
            Seq::<Seq<SpanModel>>::empty()
        }) + spec_flatten_from(groups, i + 1, add_to_end)
    }
}

/// All groups flattened with interleaved empty lines.
pub open spec fn spec_flatten_with_empty(
    groups: Seq<Seq<Seq<SpanModel>>>,
    add_to_end: bool,
) -> Seq<Seq<SpanModel>> {
    spec_flatten_from(groups, 0, add_to_end)
}

/// The delimiter between help entries on one line.
pub open spec fn help_delim() -> Seq<char> {
    seq![',', ' ', ' ']
}

/// The help lines: the entries grouped to fit `max_width`, each group
/// joined and padded with one space on either side, with empty lines
/// interleaved.
pub open spec fn spec_build_help_lines(helps: Seq<Seq<char>>, max_width: nat) -> Seq<
    Seq<SpanModel>,
> {
    spec_flatten_with_empty(
        greedy_groups(helps, max_width, help_delim()).map_values(
            |g: Seq<Seq<char>>|
                seq![plain_line_model(seq![' '] + join_with(g, help_delim()) + seq![' '])],
        ),
        true,
    )
}

/// The application-details block: name and description, version, homepage
/// in the link colour, and a divider of `w` dashes.
pub open spec fn spec_about_lines(
    name: Seq<char>,
    description: Seq<char>,
    version: Seq<char>,
    homepage: Seq<char>,
    w: nat,
) -> Seq<Seq<SpanModel>> {
    seq![
        plain_line_model(seq![' '] + name + seq![' ', '-', ' '] + description),
        plain_line_model(seq![' ', 'V', 'e', 'r', 's', 'i', 'o', 'n', ':', ' '] + version),
        seq![SpanModel { content: seq![' '] + homepage, color: SpanColor::Blue }],
        seq![SpanModel { content: Seq::new(w, |i: int| '-'), color: SpanColor::DarkGray }],
    ]
}

/// The whole help page at frame width `w`: the details block with empty
/// lines interleaved, then the help lines at a width of at most eighty
/// columns less two of padding.
pub open spec fn spec_help_page(
    helps: Seq<Seq<char>>,
    name: Seq<char>,
    description: Seq<char>,
    version: Seq<char>,
    homepage: Seq<char>,
    w: nat,
) -> Seq<Seq<SpanModel>> {
    let mw: nat = if w < 80 {
        w
    } else {
        80
    };
    let mw2: nat = if mw >= 2 {
        (mw - 2) as nat
    } else {
        0
    };
    spec_flatten_with_empty(
        spec_about_lines(name, description, version, homepage, w).map_values(
            |l: Seq<SpanModel>| seq![l],
        ),
        true,
    ) + spec_build_help_lines(helps, mw2)
}

/// Flatten groups of display lines, putting an empty line after each
/// group; after the last one only when `add_to_end` is set.
#[verifier::loop_isolation(false)]
pub fn flatten_with_empty_lines(line_groups: Vec<Vec<StyledLine>>, add_to_end: bool) -> (r: Vec<
    StyledLine,
>)
    ensures
        r@.map_values(|l: StyledLine| l@) == spec_flatten_with_empty(
            line_groups@.map_values(|g: Vec<StyledLine>| g@.map_values(|l: StyledLine| l@)),
            add_to_end,
        ),
{
    let ghost gv = line_groups@.map_values(|g: Vec<StyledLine>| g@.map_values(|l: StyledLine| l@));
    let n = line_groups.len();
    let mut ret: Vec<StyledLine> = Vec::new();
    let mut i: usize = 0;
    while i < n
        invariant
            i <= n,
            spec_flatten_from(gv, 0, add_to_end) == ret@.map_values(|l: StyledLine| l@)
                + spec_flatten_from(gv, i as int, add_to_end),
        decreases n - i,
    {
        let ghost pre = ret@.map_values(|l: StyledLine| l@);
        let group = &line_groups[i];
        let mut j: usize = 0;
        while j < group.len()
            invariant
                j <= group@.len(),
                ret@.map_values(|l: StyledLine| l@) =~= pre + gv[i as int].take(j as int),
            decreases group@.len() - j,
        {
            let ghost before = ret@;
            ret.push(group[j].duplicate());
            proof {
                assert(gv[i as int] == line_groups@[i as int]@.map_values(|l: StyledLine| l@));
                assert(gv[i as int][j as int] == line_groups@[i as int]@[j as int]@);
                assert(ret@.map_values(|l: StyledLine| l@) =~= before.map_values(
                    |l: StyledLine| l@,
                ).push(gv[i as int][j as int]));
                assert(gv[i as int].take(j + 1 as int) =~= gv[i as int].take(j as int).push(
                    gv[i as int][j as int],
                ));
                assert(ret@.map_values(|l: StyledLine| l@) =~= pre + gv[i as int].take(
                    j + 1 as int,
                ));
            }
            j = j + 1;
        }
        proof {
            assert(gv[i as int].take(gv[i as int].len() as int) =~= gv[i as int]);
        }
        if add_to_end || i != n - 1 {
            ret.push(StyledLine::raw(String::new()));
            proof {
                assert(ret@.map_values(|l: StyledLine| l@) =~= pre + gv[i as int] + seq![
                    empty_line_model(),
                ]);
            }
        }
        proof {
            assert(ret@.map_values(|l: StyledLine| l@) + spec_flatten_from(
                gv,
                i + 1 as int,
                add_to_end,
            ) =~= pre + spec_flatten_from(gv, i as int, add_to_end));
        }
        i = i + 1;
    }
    ret
}

/// Each line in its own group, with an empty line after every one.
pub fn with_empty_lines(lines: Vec<StyledLine>) -> (r: Vec<StyledLine>)
    ensures
        r@.map_values(|l: StyledLine| l@) == spec_flatten_with_empty(
            lines@.map_values(|l: StyledLine| seq![l@]),
            true,
        ),
{
    let mut groups: Vec<Vec<StyledLine>> = Vec::new();
    let mut i: usize = 0;
    while i < lines.len()
        invariant
            i <= lines@.len(),
            groups@.len() == i,
            forall|k: int|
                0 <= k < i ==> (#[trigger] groups@[k])@.map_values(|l: StyledLine| l@) =~= seq![
                    lines@[k]@,
                ],
        decreases lines@.len() - i,
    {
        let mut g: Vec<StyledLine> = Vec::new();
        g.push(lines[i].duplicate());
        groups.push(g);
        i = i + 1;
    }
    let r = flatten_with_empty_lines(groups, true);
    proof {
        assert(groups@.map_values(|g: Vec<StyledLine>| g@.map_values(|l: StyledLine| l@))
            =~~= lines@.map_values(|l: StyledLine| seq![l@]));
    }
    r
}

/// Lay the help entries out in lines that fit `max_width`, one space of
/// padding on either side, with empty lines interleaved.
#[verifier::loop_isolation(false)]
pub fn build_help_lines(helps: &Vec<String>, max_width: usize) -> (r: Vec<StyledLine>)
    ensures
        r@.map_values(|l: StyledLine| l@) == spec_build_help_lines(
            helps@.map_values(|s: String| s@),
            max_width as nat,
        ),
{
    proof {
        reveal_strlit(",  ");
        assert(",  "@ =~= help_delim());
    }
    let ghost items = helps@.map_values(|s: String| s@);
    let word_groups = group_strings_to_fit_width(helps, max_width, ",  ");
    let ghost gg = greedy_groups(items, max_width as nat, help_delim());
    let mut lines: Vec<StyledLine> = Vec::new();
    let mut i: usize = 0;
    while i < word_groups.len()
        invariant
            i <= word_groups@.len(),
            lines@.len() == i,
            forall|k: int|
                0 <= k < i ==> #[trigger] lines@[k]@ =~= plain_line_model(
                    seq![' '] + join_with(gg[k], help_delim()) + seq![' '],
                ),
        decreases word_groups@.len() - i,
    {
        let group = &word_groups[i];
        let ghost gview = group@.map_values(|s: String| s@);
        proof {
            assert(gview == gg[i as int]);
            reveal_strlit(" ");
        }
        let mut s = String::new();
        s.append(" ");
        let mut j: usize = 0;
        while j < group.len()
            invariant
                j <= group@.len(),
                s@ =~= seq![' '] + join_with(gview.take(j as int), help_delim()),
            decreases group@.len() - j,
        {
            if j > 0 {
                proof {
                    reveal_strlit(",  ");
                }
                s.append(",  ");
            }
            s.append(group[j].as_str());
            proof {
                if j > 0 {
                    assert(gview.take(j + 1 as int).drop_last() =~= gview.take(j as int));
                    assert(join_with(gview.take(j + 1 as int), help_delim()) =~= join_with(
                        gview.take(j as int),
                        help_delim(),
                    ) + help_delim() + gview[j as int]);
                } else {
                    assert(gview.take(1) =~= seq![gview[0]]);
                    assert(join_with(seq![gview[0]], help_delim()) =~= gview[0]);
                    assert(join_with(gview.take(0), help_delim()) =~= Seq::<char>::empty());
                }
                assert(s@ =~= seq![' '] + join_with(gview.take(j + 1 as int), help_delim()));
            }
            j = j + 1;
        }
        proof {
            reveal_strlit(" ");
            assert(gview.take(gview.len() as int) =~= gview);
        }
        let ghost joined = s@;
        s.append(" ");
        proof {
            assert(joined =~= seq![' '] + join_with(gview, help_delim()));
            assert(s@ =~= seq![' '] + join_with(gview, help_delim()) + seq![' ']);
        }
        lines.push(StyledLine::raw(s));
        proof {
            assert(lines@[i as int]@ =~= plain_line_model(
                seq![' '] + join_with(gg[i as int], help_delim()) + seq![' '],
            ));
        }
        i = i + 1;
    }
    let r = with_empty_lines(lines);
    proof {
        assert(lines@.map_values(|l: StyledLine| seq![l@]) =~~= gg.map_values(
            |g: Seq<Seq<char>>|
                seq![plain_line_model(seq![' '] + join_with(g, help_delim()) + seq![' '])],
        ));
    }
    r
}

impl HelpPage {
    /// A help page over the given key-binding descriptions.
    pub fn new(helps: Vec<String>) -> (r: HelpPage)
        ensures
            r@ == helps@.map_values(|s: String| s@),
    {
        HelpPage { helps }
    }

    /// Decide what a key press on the help page asks for: Esc quits the
    /// application, Backspace closes the help, `?` toggles it, and every
    /// other key does nothing.
    pub fn handle_key(&self, key: KeyInput) -> (r: Option<HelpAction>)
        ensures
            r == match key {
                KeyInput::Esc => Some(HelpAction::Quit),
                KeyInput::Backspace => Some(HelpAction::CloseHelp),
                KeyInput::Char(c) => if c == '?' {
                    Some(HelpAction::ToggleHelp)
                } else {
                    None::<HelpAction>
                },
                KeyInput::Other => None::<HelpAction>,
            },
    {
        match key {
            KeyInput::Esc => Some(HelpAction::Quit),
            KeyInput::Backspace => Some(HelpAction::CloseHelp),
            KeyInput::Char(c) => if c == '?' {
                Some(HelpAction::ToggleHelp)
            } else {
                None
            },
            KeyInput::Other => None,
        }
    }

    /// The page's own full help texts; it offers none.
    pub fn helps(&self) -> (r: Vec<String>)
        ensures
            r@.len() == 0,
    {
        Vec::new()
    }

    /// The short help entries of the page, each with its priority.
    pub fn short_helps(&self) -> (r: Vec<(String, usize)>)
        ensures
            r@.len() == 2,
            r@[0].0@ == "<Esc>: Quit"@,
            r@[0].1 == 0,
            r@[1].0@ == "<?>: Close help"@,
            r@[1].1 == 0,
    {
        let mut r: Vec<(String, usize)> = Vec::new();
        r.push((String::from_str("<Esc>: Quit"), 0));
        r.push((String::from_str("<?>: Close help"), 0));
        r
    }

    /// The content lines of the help page for a frame `width` columns
    /// wide.
    pub fn render(&self, width: usize, info: &AppInfo) -> (r: Vec<StyledLine>)
        ensures
            r@.map_values(|l: StyledLine| l@) == spec_help_page(
                self@,
                info.name@,
                info.description@,
                info.version@,
                info.homepage@,
                width as nat,
            ),
    {
        proof {
            reveal_strlit(" ");
            reveal_strlit(" - ");
            reveal_strlit(" Version: ");
            reveal_strlit("-");
        }
        let mut l1 = String::new();
        l1.append(" ");
        l1.append(info.name.as_str());
        l1.append(" - ");
        l1.append(info.description.as_str());
        let mut l2 = String::new();
        l2.append(" Version: ");
        l2.append(info.version.as_str());
        let mut l3 = String::new();
        l3.append(" ");
        l3.append(info.homepage.as_str());
        let mut l4 = String::new();
        let mut p: usize = 0;
        while p < width
            invariant
                p <= width,
                l4@ =~= Seq::new(p as nat, |i: int| '-'),
            decreases width - p,
        {
            proof {
                reveal_strlit("-");
            }
            l4.append("-");
            proof {
                assert(l4@ =~= Seq::new((p + 1) as nat, |i: int| '-'));
            }
            p = p + 1;
        }
        proof {
            assert(l1@ =~= seq![' '] + info.name@ + seq![' ', '-', ' '] + info.description@);
            assert(l2@ =~= seq![' ', 'V', 'e', 'r', 's', 'i', 'o', 'n', ':', ' ']
                + info.version@);
            assert(l3@ =~= seq![' '] + info.homepage@);
        }
        let mut app_details: Vec<StyledLine> = Vec::new();
        app_details.push(StyledLine::raw(l1));
        app_details.push(StyledLine::raw(l2));
        app_details.push(StyledLine::colored(l3, SpanColor::Blue));
        app_details.push(StyledLine::colored(l4, SpanColor::DarkGray));
        let ghost about = spec_about_lines(
            info.name@,
            info.description@,
            info.version@,
            info.homepage@,
            width as nat,
        );
        proof {
            assert(app_details@.map_values(|l: StyledLine| l@) =~~= about);
            assert(app_details@.map_values(|l: StyledLine| seq![l@]) =~~= about.map_values(
                |l: Seq<SpanModel>| seq![l],
            ));
        }
        let mut content = with_empty_lines(app_details);
        let mw = if width < 80 {
            width
        } else {
            80
        };
        let mw2 = if mw >= 2 {
            mw - 2
        } else {
            0
        };
        let mut help = build_help_lines(&self.helps, mw2);
        let ghost content_pre = content@.map_values(|l: StyledLine| l@);
        let ghost help_view = help@.map_values(|l: StyledLine| l@);
        content.append(&mut help);
        proof {
            assert(content@.map_values(|l: StyledLine| l@) =~= content_pre + help_view);
        }
        content
    }
}

} // verus!
