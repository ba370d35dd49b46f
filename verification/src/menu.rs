//! The dropdown menu definition and the ready-to-paste waybar module config.

use crate::formats::{format_table, specs, Group, Spec, SPEC_COUNT};
use crate::text::{contains_text, lemma_contains_middle};
use vstd::prelude::*;

verus! {

/// Opening of the GtkBuilder document.
pub open spec fn xml_head() -> Seq<char> {
    "<?xml version=\"1.0\" encoding=\"UTF-8\"?>\n<interface>\n  <object class=\"GtkMenu\" id=\"menu\">\n"@
}

/// Separator item between two groups of formats.
pub open spec fn xml_separator() -> Seq<char> {
    "    <child>\n      <object class=\"GtkSeparatorMenuItem\"/>\n    </child>\n"@
}

/// Closing of the GtkBuilder document.
pub open spec fn xml_tail() -> Seq<char> {
    "  </object>\n</interface>\n"@
}

/// The verb in front of a menu label, by group.
pub open spec fn menu_verb(g: Group) -> Seq<char> {
    match g {
        Group::Timestamp => "copy"@,
        Group::Date => "copy"@,
    }
}

/// The menu item of a format: its key as id, verb and label as text.
pub open spec fn menu_item(key: Seq<char>, label: Seq<char>, verb: Seq<char>) -> Seq<char> {
    "    <child>\n      <object class=\"GtkMenuItem\" id=\""@ + key
        + "\">\n        <property name=\"label\">"@ + verb + " "@ + label
        + "</property>\n      </object>\n    </child>\n"@
}

/// What stands before menu item `i`: a separator where the group changes.
pub open spec fn separator_before(i: int) -> Seq<char> {
    if i > 0 && format_table()[i].2 != format_table()[i - 1].2 {
        xml_separator()
    } else {
        Seq::empty()
    }
}

/// The menu items of the first `n` built-in formats.
pub open spec fn xml_items(n: int) -> Seq<char>
    decreases n,
{
    if n <= 0 {
        Seq::empty()
    } else {
        let e = format_table()[n - 1];
        xml_items(n - 1) + separator_before(n - 1) + menu_item(e.0, e.1, menu_verb(e.2))
    }
}

/// The whole menu document.
pub open spec fn xml_spec() -> Seq<char> {
    xml_head() + xml_items(SPEC_COUNT as int) + xml_tail()
}

fn menu_verb_str(g: Group) -> (r: &'static str)
    ensures
        r@ == menu_verb(g),
{
    match g {
        Group::Timestamp => "copy",
        Group::Date => "copy",
    }
}

fn xml_entry(i: usize, spec: Spec, group: Option<Group>) -> (r: String)
    requires
        i < SPEC_COUNT,
        spec@ == format_table()[i as int],
        group == (if i == 0 {
            None::<Group>
        } else {
            Some(format_table()[i - 1].2)
        }),
    ensures
        r@ == separator_before(i as int) + menu_item(spec.key@, spec.label@, menu_verb(spec.group)),
{
    let mut out = String::new();
    let new_group = match group {
        None => true,
        Some(g) => g != spec.group,
    };
    if new_group && group.is_some() {
        out.append("    <child>\n      <object class=\"GtkSeparatorMenuItem\"/>\n    </child>\n");
    }
    assert(out@ =~= separator_before(i as int));
    out.append("    <child>\n      <object class=\"GtkMenuItem\" id=\"");
    out.append(spec.key);
    out.append("\">\n        <property name=\"label\">");
    out.append(menu_verb_str(spec.group));
    out.append(" ");
    out.append(spec.label);
    out.append("</property>\n      </object>\n    </child>\n");
    out
}

/// GtkBuilder XML for waybar's `menu-file`, one item per format.
/// Item ids match format keys and are wired via `menu-actions`.
pub fn xml() -> (r: String)
    ensures
        r@ == xml_spec(),
{
    let table = specs();
    let mut out = String::from_str(
        "<?xml version=\"1.0\" encoding=\"UTF-8\"?>\n<interface>\n  <object class=\"GtkMenu\" id=\"menu\">\n",
    );
    let mut group: Option<Group> = None;
    let mut i: usize = 0;
    while i < table.len()
        invariant
            table@.len() == SPEC_COUNT,
            forall|j: int| 0 <= j < table@.len() ==> #[trigger] table@[j]@ == format_table()[j],
            i <= table@.len(),
            group == (if i == 0 {
                None::<Group>
            } else {
                Some(format_table()[i - 1].2)
            }),
            out@ == xml_head() + xml_items(i as int),
        decreases table@.len() - i,
    {
        let spec = table[i];
        assert(spec@ == format_table()[i as int]);
        let entry = xml_entry(i, spec, group);
        out.append(entry.as_str());
        group = Some(spec.group);
        i = i + 1;
    }
    out.append("  </object>\n</interface>\n");
    out
}

/// The `menu-actions` line of one format key.
pub open spec fn action_line(key: Seq<char>, binary: Seq<char>) -> Seq<char> {
    "    \""@ + key + "\": \""@ + binary + " copy "@ + key + " | wl-copy\",\n"@
}

/// The `menu-actions` lines of the first `n` built-in formats.
pub open spec fn action_lines(n: int, binary: Seq<char>) -> Seq<char>
    decreases n,
{
    if n <= 0 {
        Seq::empty()
    } else {
        action_lines(n - 1, binary) + action_line(format_table()[n - 1].0, binary)
    }
}

/// The waybar module config that runs `binary`.
pub open spec fn snippet_spec(binary: Seq<char>) -> Seq<char> {
    "\"custom/unixtime\": {\n  \"exec\": \""@ + binary
        + " once\",\n  \"interval\": 1,\n  \"signal\": 8,\n  \"return-type\": \"json\",\n  \"menu\": \"on-click\",\n  \"menu-file\": \"$HOME/.config/waybar/unixtime-menu.xml\",\n  \"menu-actions\": {\n"@
        + action_lines(SPEC_COUNT as int, binary) + "  },\n  \"on-click-right\":\n    \""@ + binary
        + " toggle && pkill -RTMIN+8 waybar\",\n  \"on-click-middle\": \""@ + binary
        + " copy | wl-copy\",\n  \"tooltip\": true\n}\n"@
}

/// Recommended waybar module config, ready to paste. `binary` should
/// be an absolute path so waybar finds it regardless of environment.
pub fn snippet(binary: &str) -> (r: String)
    ensures
        r@ == snippet_spec(binary@),
{
    let table = specs();
    let mut actions = String::new();
    let mut i: usize = 0;
    while i < table.len()
        invariant
            table@.len() == SPEC_COUNT,
            forall|j: int| 0 <= j < table@.len() ==> #[trigger] table@[j]@ == format_table()[j],
            i <= table@.len(),
            actions@ == action_lines(i as int, binary@),
        decreases table@.len() - i,
    {
        let key = table[i].key;
        assert(table@[i as int]@ == format_table()[i as int]);
        actions.append("    \"");
        actions.append(key);
        actions.append("\": \"");
        actions.append(binary);
        actions.append(" copy ");
        actions.append(key);
        actions.append(" | wl-copy\",\n");
        i = i + 1;
    }
    let mut out = String::from_str("\"custom/unixtime\": {\n  \"exec\": \"");
    out.append(binary);
    out.append(
        " once\",\n  \"interval\": 1,\n  \"signal\": 8,\n  \"return-type\": \"json\",\n  \"menu\": \"on-click\",\n  \"menu-file\": \"$HOME/.config/waybar/unixtime-menu.xml\",\n  \"menu-actions\": {\n",
    );
    out.append(actions.as_str());
    out.append("  },\n  \"on-click-right\":\n    \"");
    out.append(binary);
    out.append(" toggle && pkill -RTMIN+8 waybar\",\n  \"on-click-middle\": \"");
    out.append(binary);
    out.append(" copy | wl-copy\",\n  \"tooltip\": true\n}\n");
    out
}

/// The items of the first `n` formats begin the items of the first `m`.
proof fn lemma_items_prefix(n: int, m: int)
    requires
        0 <= n <= m,
    ensures
        xml_items(n).len() <= xml_items(m).len(),
        xml_items(m) == xml_items(n) + xml_items(m).skip(xml_items(n).len() as int),
    decreases m - n,
{
    if n < m {
        lemma_items_prefix(n, m - 1);
        assert(xml_items(m) =~= xml_items(n) + xml_items(m).skip(xml_items(n).len() as int));
    } else {
        assert(xml_items(m) =~= xml_items(n) + xml_items(m).skip(xml_items(n).len() as int));
    }
}

/// The action lines of the first `n` formats begin those of the first `m`.
proof fn lemma_actions_prefix(n: int, m: int, binary: Seq<char>)
    requires
        0 <= n <= m,
    ensures
        action_lines(n, binary).len() <= action_lines(m, binary).len(),
        action_lines(m, binary) == action_lines(n, binary) + action_lines(m, binary).skip(
            action_lines(n, binary).len() as int,
        ),
    decreases m - n,
{
    if n < m {
        lemma_actions_prefix(n, m - 1, binary);
    }
    assert(action_lines(m, binary) =~= action_lines(n, binary) + action_lines(m, binary).skip(
        action_lines(n, binary).len() as int,
    ));
}

/// Every built-in format has a menu item whose id is its key, and the module
/// config wires that id to a command that copies the format.
pub proof fn lemma_menu_items_wired(binary: Seq<char>, i: int)
    requires
        0 <= i < SPEC_COUNT,
    ensures
        contains_text(
            xml_spec(),
            menu_item(format_table()[i].0, format_table()[i].1, menu_verb(format_table()[i].2)),
        ),
        contains_text(snippet_spec(binary), action_line(format_table()[i].0, binary)),
{
    let e = format_table()[i];
    let item = menu_item(e.0, e.1, menu_verb(e.2));
    lemma_items_prefix(i + 1, SPEC_COUNT as int);
    let all = xml_items(SPEC_COUNT as int);
    let after = all.skip(xml_items(i + 1).len() as int);
    assert(xml_items(i + 1) == xml_items(i) + separator_before(i) + item);
    assert(xml_spec() =~= (xml_head() + xml_items(i) + separator_before(i)) + item + (after
        + xml_tail()));
    lemma_contains_middle(xml_head() + xml_items(i) + separator_before(i), item, after + xml_tail());

    let line = action_line(e.0, binary);
    lemma_actions_prefix(i + 1, SPEC_COUNT as int, binary);
    let acts = action_lines(SPEC_COUNT as int, binary);
    let rest = acts.skip(action_lines(i + 1, binary).len() as int);
    assert(action_lines(i + 1, binary) == action_lines(i, binary) + line);
    let head = "\"custom/unixtime\": {\n  \"exec\": \""@ + binary
        + " once\",\n  \"interval\": 1,\n  \"signal\": 8,\n  \"return-type\": \"json\",\n  \"menu\": \"on-click\",\n  \"menu-file\": \"$HOME/.config/waybar/unixtime-menu.xml\",\n  \"menu-actions\": {\n"@;
    let tail = "  },\n  \"on-click-right\":\n    \""@ + binary
        + " toggle && pkill -RTMIN+8 waybar\",\n  \"on-click-middle\": \""@ + binary
        + " copy | wl-copy\",\n  \"tooltip\": true\n}\n"@;
    assert(snippet_spec(binary) =~= (head + action_lines(i, binary)) + line + (rest + tail));
    lemma_contains_middle(head + action_lines(i, binary), line, rest + tail);
}

} // verus!
