//! Rendering options: the selection to highlight and the colours, read from
//! the key and value pairs of a request.
use crate::stu::SkillTreeUrl;
use vstd::prelude::*;

verus! {

/// What to render: the selected class, ascendancies and nodes, and colours
/// that replace the defaults.
#[derive(Debug, Default)]
pub struct Options {
    pub class: u8,
    pub ascendancy: u8,
    pub alternate_ascendancy: u8,
    pub nodes: Vec<u16>,
    pub background_color: Option<String>,
    pub color: Option<String>,
    pub active_color: Option<String>,
    pub node_color: Option<String>,
    pub node_active_color: Option<String>,
    pub connection_color: Option<String>,
    pub connection_active_color: Option<String>,
}

/// Characters a colour value may hold: ASCII letters, digits and `#`.
pub open spec fn color_char(c: char) -> bool {
    ('a' <= c && c <= 'z') || ('A' <= c && c <= 'Z') || ('0' <= c && c <= '9') || c == '#'
}

pub open spec fn valid_color(s: Seq<char>) -> bool {
    forall|i: int| 0 <= i < s.len() ==> color_char(#[trigger] s[i])
}

/// The value that the last acceptable pair with key `key` gives.
pub open spec fn color_value(pairs: Seq<(String, String)>, key: Seq<char>) -> Option<Seq<char>>
    decreases pairs.len(),
{
    if pairs.len() == 0 {
        None
    } else if pairs.last().0@ == key && valid_color(pairs.last().1@) {
        Some(pairs.last().1@)
    } else {
        color_value(pairs.drop_last(), key)
    }
}

pub open spec fn opt_view(o: Option<String>) -> Option<Seq<char>> {
    match o {
        Some(s) => Some(s@),
        None => None,
    }
}

/// The colour options that a list of pairs sets, each from the last
/// acceptable pair with its key.
pub open spec fn colors_match(o: Options, pairs: Seq<(String, String)>) -> bool {
    &&& opt_view(o.background_color) == color_value(pairs, "backgroundColor"@)
    &&& opt_view(o.color) == color_value(pairs, "color"@)
    &&& opt_view(o.active_color) == color_value(pairs, "activeColor"@)
    &&& opt_view(o.node_color) == color_value(pairs, "nodeColor"@)
    &&& opt_view(o.node_active_color) == color_value(pairs, "nodeActiveColor"@)
    &&& opt_view(o.connection_color) == color_value(pairs, "connectionColor"@)
    &&& opt_view(o.connection_active_color) == color_value(pairs, "connectionActiveColor"@)
}

pub fn is_ascii_alphabetic_or_digit_or_hash(c: char) -> (r: bool)
    ensures
        r == color_char(c),
{
    ('a' <= c && c <= 'z') || ('A' <= c && c <= 'Z') || ('0' <= c && c <= '9') || c == '#'
}

/// Whether every character of `s` may stand in a colour.
pub fn is_valid_color(s: &String) -> (r: bool)
    ensures
        r == valid_color(s@),
{
    let text = s.as_str();
    assert(text@ == s@);
    let n = text.unicode_len();
    let mut i: usize = 0;
    while i < n
        invariant
            text@ == s@,
            n == s@.len(),
            i <= n,
            forall|j: int| 0 <= j < i ==> color_char(#[trigger] s@[j]),
        decreases n - i,
    {
        if !is_ascii_alphabetic_or_digit_or_hash(text.get_char(i)) {
            assert(!color_char(s@[i as int]));
            return false;
        }
        i = i + 1;
    }
    true
}

/// The option keys are distinct.
proof fn lemma_keys_distinct()
    ensures
        "backgroundColor"@ != "color"@,
        "backgroundColor"@ != "activeColor"@,
        "backgroundColor"@ != "nodeColor"@,
        "backgroundColor"@ != "nodeActiveColor"@,
        "backgroundColor"@ != "connectionColor"@,
        "backgroundColor"@ != "connectionActiveColor"@,
        "color"@ != "activeColor"@,
        "color"@ != "nodeColor"@,
        "color"@ != "nodeActiveColor"@,
        "color"@ != "connectionColor"@,
        "color"@ != "connectionActiveColor"@,
        "activeColor"@ != "nodeColor"@,
        "activeColor"@ != "nodeActiveColor"@,
        "activeColor"@ != "connectionColor"@,
        "activeColor"@ != "connectionActiveColor"@,
        "nodeColor"@ != "nodeActiveColor"@,
        "nodeColor"@ != "connectionColor"@,
        "nodeColor"@ != "connectionActiveColor"@,
        "nodeActiveColor"@ != "connectionColor"@,
        "nodeActiveColor"@ != "connectionActiveColor"@,
        "connectionColor"@ != "connectionActiveColor"@,
{
    reveal_strlit("backgroundColor");
    reveal_strlit("color");
    reveal_strlit("activeColor");
    reveal_strlit("nodeColor");
    reveal_strlit("nodeActiveColor");
    reveal_strlit("connectionColor");
    reveal_strlit("connectionActiveColor");
    assert("backgroundColor"@.len() != "color"@.len());
    assert("backgroundColor"@.len() != "activeColor"@.len());
    assert("backgroundColor"@.len() != "nodeColor"@.len());
    assert("backgroundColor"@[0] != "nodeActiveColor"@[0]);
    assert("backgroundColor"@[0] != "connectionColor"@[0]);
    assert("backgroundColor"@.len() != "connectionActiveColor"@.len());
    assert("color"@.len() != "activeColor"@.len());
    assert("color"@.len() != "nodeColor"@.len());
    assert("color"@.len() != "nodeActiveColor"@.len());
    assert("color"@.len() != "connectionColor"@.len());
    assert("color"@.len() != "connectionActiveColor"@.len());
    assert("activeColor"@.len() != "nodeColor"@.len());
    assert("activeColor"@.len() != "nodeActiveColor"@.len());
    assert("activeColor"@.len() != "connectionColor"@.len());
    assert("activeColor"@.len() != "connectionActiveColor"@.len());
    assert("nodeColor"@.len() != "nodeActiveColor"@.len());
    assert("nodeColor"@.len() != "connectionColor"@.len());
    assert("nodeColor"@.len() != "connectionActiveColor"@.len());
    assert("nodeActiveColor"@[0] != "connectionColor"@[0]);
    assert("nodeActiveColor"@.len() != "connectionActiveColor"@.len());
    assert("connectionColor"@.len() != "connectionActiveColor"@.len());
}

/// The options for a decoded token and the key and value pairs of a
/// request: the selection comes from the token, each colour from the last
/// pair with its key whose value holds only letters, digits and `#`.
pub fn parse_options(pairs: &Vec<(String, String)>, stu: SkillTreeUrl) -> (r: Options)
    ensures
        r.class == stu.class,
        r.ascendancy == stu.ascendancy,
        r.alternate_ascendancy == stu.alternate_ascendancy,
        r.nodes@ == stu.nodes@,
        colors_match(r, pairs@),
{
    let mut options = Options {
        class: stu.class,
        ascendancy: stu.ascendancy,
        alternate_ascendancy: stu.alternate_ascendancy,
        nodes: stu.nodes,
        background_color: None,
        color: None,
        active_color: None,
        node_color: None,
        node_active_color: None,
        connection_color: None,
        connection_active_color: None,
    };
    let background_color = "backgroundColor".to_owned();
    let color = "color".to_owned();
    let active_color = "activeColor".to_owned();
    let node_color = "nodeColor".to_owned();
    let node_active_color = "nodeActiveColor".to_owned();
    let connection_color = "connectionColor".to_owned();
    let connection_active_color = "connectionActiveColor".to_owned();
    let mut i: usize = 0;
    assert(pairs@.take(0) =~= Seq::<(String, String)>::empty());
    while i < pairs.len()
        invariant
            i <= pairs@.len(),
            options.class == stu.class,
            options.ascendancy == stu.ascendancy,
            options.alternate_ascendancy == stu.alternate_ascendancy,
            options.nodes@ == stu.nodes@,
            background_color@ == "backgroundColor"@,
            color@ == "color"@,
            active_color@ == "activeColor"@,
            node_color@ == "nodeColor"@,
            node_active_color@ == "nodeActiveColor"@,
            connection_color@ == "connectionColor"@,
            connection_active_color@ == "connectionActiveColor"@,
            colors_match(options, pairs@.take(i as int)),
        decreases pairs@.len() - i,
    {
        proof {
            lemma_keys_distinct();
        }
        let key = &pairs[i].0;
        let value = &pairs[i].1;
        let ghost next = pairs@.take(i as int + 1);
        assert(next.drop_last() =~= pairs@.take(i as int));
        assert(next.last() == pairs@[i as int]);
        if is_valid_color(value) {
            if *key == background_color {
                options.background_color = Some(value.clone());
            } else if *key == color {
                options.color = Some(value.clone());
            } else if *key == active_color {
                options.active_color = Some(value.clone());
            } else if *key == node_color {
                options.node_color = Some(value.clone());
            } else if *key == node_active_color {
                options.node_active_color = Some(value.clone());
            } else if *key == connection_color {
                options.connection_color = Some(value.clone());
            } else if *key == connection_active_color {
                options.connection_active_color = Some(value.clone());
            }
        }
        i = i + 1;
    }
    assert(pairs@.take(pairs@.len() as int) =~= pairs@);
    options
}

} // verus!
