use vstd::prelude::*;

verus! {

/// The box-drawing symbols that tile borders are drawn with, listed in the
/// order in which the merge table names its first operand.
#[derive(Clone, Copy, Debug, PartialEq, Eq, Structural)]
pub enum BoxSymbol {
    TopRight,
    Horizontal,
    Vertical,
    TopLeft,
    BottomRight,
    BottomLeft,
    VerticalLeft,
    VerticalRight,
    HorizontalDown,
    HorizontalUp,
    Cross,
}

/// The character each symbol is drawn with.
pub open spec fn symbol_char(s: BoxSymbol) -> char {
    match s {
        BoxSymbol::TopRight => '┐',
        BoxSymbol::Horizontal => '─',
        BoxSymbol::Vertical => '│',
        BoxSymbol::TopLeft => '┌',
        BoxSymbol::BottomRight => '┘',
        BoxSymbol::BottomLeft => '└',
        BoxSymbol::VerticalLeft => '┤',
        BoxSymbol::VerticalRight => '├',
        BoxSymbol::HorizontalDown => '┬',
        BoxSymbol::HorizontalUp => '┴',
        BoxSymbol::Cross => '┼',
    }
}

/// The symbol a one-character text stands for, if any.
pub open spec fn symbol_of_text(s: Seq<char>) -> Option<BoxSymbol> {
    if s.len() != 1 {
        None
    } else if s[0] == '┐' {
        Some(BoxSymbol::TopRight)
    } else if s[0] == '─' {
        Some(BoxSymbol::Horizontal)
    } else if s[0] == '│' {
        Some(BoxSymbol::Vertical)
    } else if s[0] == '┌' {
        Some(BoxSymbol::TopLeft)
    } else if s[0] == '┘' {
        Some(BoxSymbol::BottomRight)
    } else if s[0] == '└' {
        Some(BoxSymbol::BottomLeft)
    } else if s[0] == '┤' {
        Some(BoxSymbol::VerticalLeft)
    } else if s[0] == '├' {
        Some(BoxSymbol::VerticalRight)
    } else if s[0] == '┬' {
        Some(BoxSymbol::HorizontalDown)
    } else if s[0] == '┴' {
        Some(BoxSymbol::HorizontalUp)
    } else if s[0] == '┼' {
        Some(BoxSymbol::Cross)
    } else {
        None
    }
}

/// The position of a symbol in the order of `BoxSymbol`'s variants.
pub open spec fn rank(s: BoxSymbol) -> int {
    match s {
        BoxSymbol::TopRight => 0,
        BoxSymbol::Horizontal => 1,
        BoxSymbol::Vertical => 2,
        BoxSymbol::TopLeft => 3,
        BoxSymbol::BottomRight => 4,
        BoxSymbol::BottomLeft => 5,
        BoxSymbol::VerticalLeft => 6,
        BoxSymbol::VerticalRight => 7,
        BoxSymbol::HorizontalDown => 8,
        BoxSymbol::HorizontalUp => 9,
        BoxSymbol::Cross => 10,
    }
}

/// The lines that leave the centre of a cell: up, down, left, right.
pub struct Arms {
    pub up: bool,
    pub down: bool,
    pub left: bool,
    pub right: bool,
}

pub open spec fn arms(s: BoxSymbol) -> Arms {
    match s {
        BoxSymbol::TopRight => Arms { up: false, down: true, left: true, right: false },
        BoxSymbol::Horizontal => Arms { up: false, down: false, left: true, right: true },
        BoxSymbol::Vertical => Arms { up: true, down: true, left: false, right: false },
        BoxSymbol::TopLeft => Arms { up: false, down: true, left: false, right: true },
        BoxSymbol::BottomRight => Arms { up: true, down: false, left: true, right: false },
        BoxSymbol::BottomLeft => Arms { up: true, down: false, left: false, right: true },
        BoxSymbol::VerticalLeft => Arms { up: true, down: true, left: true, right: false },
        BoxSymbol::VerticalRight => Arms { up: true, down: true, left: false, right: true },
        BoxSymbol::HorizontalDown => Arms { up: false, down: true, left: true, right: true },
        BoxSymbol::HorizontalUp => Arms { up: true, down: false, left: true, right: true },
        BoxSymbol::Cross => Arms { up: true, down: true, left: true, right: true },
    }
}

pub open spec fn arms_union(a: Arms, b: Arms) -> Arms {
    Arms { up: a.up || b.up, down: a.down || b.down, left: a.left || b.left, right: a.right || b.right }
}

/// What drawing `b` over `a` gives, when the table defines it.
pub open spec fn merged(a: BoxSymbol, b: BoxSymbol) -> Option<BoxSymbol> {
    if rank(a) > rank(b) {
        None
    } else {
        Some(choose|c: BoxSymbol| arms(c) == arms_union(arms(a), arms(b)))
    }
}

/// Two symbols with the same arms are the same symbol.
pub proof fn lemma_arms_injective(a: BoxSymbol, b: BoxSymbol)
    ensures
        arms(a) == arms(b) ==> a == b,
{
}

/// Merges two known symbols by the table: defined when `a` does not come
/// after `b` in the order of the variants. Every entry is the symbol whose
/// lines are those of both; in particular a symbol drawn over itself stays
/// as it is, so `┴` over `┴` gives `┴`, not `┬`, and `┤` with `┴` gives
/// `┼`.
pub fn combine_known(a: BoxSymbol, b: BoxSymbol) -> (r: Option<BoxSymbol>)
    ensures
        r == merged(a, b),
        r matches Some(c) ==> arms(c) == arms_union(arms(a), arms(b)),
{
    let r = match (a, b) {
        (BoxSymbol::TopRight, BoxSymbol::TopRight) => Some(BoxSymbol::TopRight),
        (BoxSymbol::TopRight, BoxSymbol::Vertical) => Some(BoxSymbol::VerticalLeft),
        (BoxSymbol::TopRight, BoxSymbol::Horizontal) => Some(BoxSymbol::HorizontalDown),
        (BoxSymbol::TopRight, BoxSymbol::TopLeft) => Some(BoxSymbol::HorizontalDown),
        (BoxSymbol::TopRight, BoxSymbol::BottomRight) => Some(BoxSymbol::VerticalLeft),
        (BoxSymbol::TopRight, BoxSymbol::BottomLeft) => Some(BoxSymbol::Cross),
        (BoxSymbol::TopRight, BoxSymbol::VerticalLeft) => Some(BoxSymbol::VerticalLeft),
        (BoxSymbol::TopRight, BoxSymbol::VerticalRight) => Some(BoxSymbol::Cross),
        (BoxSymbol::TopRight, BoxSymbol::HorizontalDown) => Some(BoxSymbol::HorizontalDown),
        (BoxSymbol::TopRight, BoxSymbol::HorizontalUp) => Some(BoxSymbol::Cross),
        (BoxSymbol::TopRight, BoxSymbol::Cross) => Some(BoxSymbol::Cross),
        (BoxSymbol::Horizontal, BoxSymbol::Horizontal) => Some(BoxSymbol::Horizontal),
        (BoxSymbol::Horizontal, BoxSymbol::Vertical) => Some(BoxSymbol::Cross),
        (BoxSymbol::Horizontal, BoxSymbol::TopLeft) => Some(BoxSymbol::HorizontalDown),
        (BoxSymbol::Horizontal, BoxSymbol::BottomRight) => Some(BoxSymbol::HorizontalUp),
        (BoxSymbol::Horizontal, BoxSymbol::BottomLeft) => Some(BoxSymbol::HorizontalUp),
        (BoxSymbol::Horizontal, BoxSymbol::VerticalLeft) => Some(BoxSymbol::Cross),
        (BoxSymbol::Horizontal, BoxSymbol::VerticalRight) => Some(BoxSymbol::Cross),
        (BoxSymbol::Horizontal, BoxSymbol::HorizontalDown) => Some(BoxSymbol::HorizontalDown),
        (BoxSymbol::Horizontal, BoxSymbol::HorizontalUp) => Some(BoxSymbol::HorizontalUp),
        (BoxSymbol::Horizontal, BoxSymbol::Cross) => Some(BoxSymbol::Cross),
        (BoxSymbol::Vertical, BoxSymbol::Vertical) => Some(BoxSymbol::Vertical),
        (BoxSymbol::Vertical, BoxSymbol::TopLeft) => Some(BoxSymbol::VerticalRight),
        (BoxSymbol::Vertical, BoxSymbol::BottomRight) => Some(BoxSymbol::VerticalLeft),
        (BoxSymbol::Vertical, BoxSymbol::BottomLeft) => Some(BoxSymbol::VerticalRight),
        (BoxSymbol::Vertical, BoxSymbol::VerticalLeft) => Some(BoxSymbol::VerticalLeft),
        (BoxSymbol::Vertical, BoxSymbol::VerticalRight) => Some(BoxSymbol::VerticalRight),
        (BoxSymbol::Vertical, BoxSymbol::HorizontalDown) => Some(BoxSymbol::Cross),
        (BoxSymbol::Vertical, BoxSymbol::HorizontalUp) => Some(BoxSymbol::Cross),
        (BoxSymbol::Vertical, BoxSymbol::Cross) => Some(BoxSymbol::Cross),
        (BoxSymbol::TopLeft, BoxSymbol::TopLeft) => Some(BoxSymbol::TopLeft),
        (BoxSymbol::TopLeft, BoxSymbol::BottomRight) => Some(BoxSymbol::Cross),
        (BoxSymbol::TopLeft, BoxSymbol::BottomLeft) => Some(BoxSymbol::VerticalRight),
        (BoxSymbol::TopLeft, BoxSymbol::VerticalLeft) => Some(BoxSymbol::Cross),
        (BoxSymbol::TopLeft, BoxSymbol::VerticalRight) => Some(BoxSymbol::VerticalRight),
        (BoxSymbol::TopLeft, BoxSymbol::HorizontalDown) => Some(BoxSymbol::HorizontalDown),
        (BoxSymbol::TopLeft, BoxSymbol::HorizontalUp) => Some(BoxSymbol::Cross),
        (BoxSymbol::TopLeft, BoxSymbol::Cross) => Some(BoxSymbol::Cross),
        (BoxSymbol::BottomRight, BoxSymbol::BottomRight) => Some(BoxSymbol::BottomRight),
        (BoxSymbol::BottomRight, BoxSymbol::BottomLeft) => Some(BoxSymbol::HorizontalUp),
        (BoxSymbol::BottomRight, BoxSymbol::VerticalLeft) => Some(BoxSymbol::VerticalLeft),
        (BoxSymbol::BottomRight, BoxSymbol::VerticalRight) => Some(BoxSymbol::Cross),
        (BoxSymbol::BottomRight, BoxSymbol::HorizontalDown) => Some(BoxSymbol::Cross),
        (BoxSymbol::BottomRight, BoxSymbol::HorizontalUp) => Some(BoxSymbol::HorizontalUp),
        (BoxSymbol::BottomRight, BoxSymbol::Cross) => Some(BoxSymbol::Cross),
        (BoxSymbol::BottomLeft, BoxSymbol::BottomLeft) => Some(BoxSymbol::BottomLeft),
        (BoxSymbol::BottomLeft, BoxSymbol::VerticalLeft) => Some(BoxSymbol::Cross),
        (BoxSymbol::BottomLeft, BoxSymbol::VerticalRight) => Some(BoxSymbol::VerticalRight),
        (BoxSymbol::BottomLeft, BoxSymbol::HorizontalDown) => Some(BoxSymbol::Cross),
        (BoxSymbol::BottomLeft, BoxSymbol::HorizontalUp) => Some(BoxSymbol::HorizontalUp),
        (BoxSymbol::BottomLeft, BoxSymbol::Cross) => Some(BoxSymbol::Cross),
        (BoxSymbol::VerticalLeft, BoxSymbol::VerticalLeft) => Some(BoxSymbol::VerticalLeft),
        (BoxSymbol::VerticalLeft, BoxSymbol::VerticalRight) => Some(BoxSymbol::Cross),
        (BoxSymbol::VerticalLeft, BoxSymbol::HorizontalDown) => Some(BoxSymbol::Cross),
        (BoxSymbol::VerticalLeft, BoxSymbol::HorizontalUp) => Some(BoxSymbol::Cross),
        (BoxSymbol::VerticalLeft, BoxSymbol::Cross) => Some(BoxSymbol::Cross),
        (BoxSymbol::VerticalRight, BoxSymbol::VerticalRight) => Some(BoxSymbol::VerticalRight),
        (BoxSymbol::VerticalRight, BoxSymbol::HorizontalDown) => Some(BoxSymbol::Cross),
        (BoxSymbol::VerticalRight, BoxSymbol::HorizontalUp) => Some(BoxSymbol::Cross),
        (BoxSymbol::VerticalRight, BoxSymbol::Cross) => Some(BoxSymbol::Cross),
        (BoxSymbol::HorizontalDown, BoxSymbol::HorizontalDown) => Some(BoxSymbol::HorizontalDown),
        (BoxSymbol::HorizontalDown, BoxSymbol::HorizontalUp) => Some(BoxSymbol::Cross),
        (BoxSymbol::HorizontalDown, BoxSymbol::Cross) => Some(BoxSymbol::Cross),
        (BoxSymbol::HorizontalUp, BoxSymbol::HorizontalUp) => Some(BoxSymbol::HorizontalUp),
        (BoxSymbol::HorizontalUp, BoxSymbol::Cross) => Some(BoxSymbol::Cross),
        (BoxSymbol::Cross, BoxSymbol::Cross) => Some(BoxSymbol::Cross),
        (_, _) => None,
    };
    proof {
        if let Some(c) = r {
            let w = choose|w: BoxSymbol| arms(w) == arms_union(arms(a), arms(b));
            assert(arms(c) == arms_union(arms(a), arms(b)));
            lemma_arms_injective(w, c);
        }
    }
    r
}


/// The text a symbol is drawn with.
pub fn symbol_text(s: BoxSymbol) -> (r: &'static str)
    ensures
        r@ == seq![symbol_char(s)],
{
    match s {
        BoxSymbol::TopRight => {
            proof { reveal_strlit("┐"); }
            "┐"
        },
        BoxSymbol::Horizontal => {
            proof { reveal_strlit("─"); }
            "─"
        },
        BoxSymbol::Vertical => {
            proof { reveal_strlit("│"); }
            "│"
        },
        BoxSymbol::TopLeft => {
            proof { reveal_strlit("┌"); }
            "┌"
        },
        BoxSymbol::BottomRight => {
            proof { reveal_strlit("┘"); }
            "┘"
        },
        BoxSymbol::BottomLeft => {
            proof { reveal_strlit("└"); }
            "└"
        },
        BoxSymbol::VerticalLeft => {
            proof { reveal_strlit("┤"); }
            "┤"
        },
        BoxSymbol::VerticalRight => {
            proof { reveal_strlit("├"); }
            "├"
        },
        BoxSymbol::HorizontalDown => {
            proof { reveal_strlit("┬"); }
            "┬"
        },
        BoxSymbol::HorizontalUp => {
            proof { reveal_strlit("┴"); }
            "┴"
        },
        BoxSymbol::Cross => {
            proof { reveal_strlit("┼"); }
            "┼"
        },
    }
}

/// Reads the symbol a cell's text holds: one of the box-drawing characters,
/// or none.
pub fn symbol_from_text(text: &str) -> (r: Option<BoxSymbol>)
    ensures
        r == symbol_of_text(text@),
{
    if text.unicode_len() != 1 {
        return None;
    }
    let c = text.get_char(0);
    if c == '┐' {
        Some(BoxSymbol::TopRight)
    } else if c == '─' {
        Some(BoxSymbol::Horizontal)
    } else if c == '│' {
        Some(BoxSymbol::Vertical)
    } else if c == '┌' {
        Some(BoxSymbol::TopLeft)
    } else if c == '┘' {
        Some(BoxSymbol::BottomRight)
    } else if c == '└' {
        Some(BoxSymbol::BottomLeft)
    } else if c == '┤' {
        Some(BoxSymbol::VerticalLeft)
    } else if c == '├' {
        Some(BoxSymbol::VerticalRight)
    } else if c == '┬' {
        Some(BoxSymbol::HorizontalDown)
    } else if c == '┴' {
        Some(BoxSymbol::HorizontalUp)
    } else if c == '┼' {
        Some(BoxSymbol::Cross)
    } else {
        None
    }
}

/// What the merge table gives for drawing `next` over `current`, as symbols.
pub open spec fn combined_symbols(current: Seq<char>, next: Seq<char>) -> Option<BoxSymbol> {
    match (symbol_of_text(current), symbol_of_text(next)) {
        (Some(a), Some(b)) => merged(a, b),
        _ => None,
    }
}

/// Merges the symbol already in a cell with the one drawn over it, by the
/// table: `None` where either text is no box-drawing symbol or the table
/// holds no entry for the pair in this order.
pub fn combine_symbols(current_symbol: &str, next_symbol: &str) -> (r: Option<&'static str>)
    ensures
        r is Some <==> combined_symbols(current_symbol@, next_symbol@) is Some,
        r matches Some(t) ==> t@ == seq![symbol_char(combined_symbols(current_symbol@, next_symbol@)->0)],
{
    let a = symbol_from_text(current_symbol);
    let b = symbol_from_text(next_symbol);
    match (a, b) {
        (Some(a), Some(b)) => match combine_known(a, b) {
            Some(c) => Some(symbol_text(c)),
            None => None,
        },
        _ => None,
    }
}

/// The symbol that results from drawing one box-drawing symbol over another,
/// in whichever order the table holds them.
pub open spec fn next_symbol_spec(first: Seq<char>, second: Seq<char>) -> Option<BoxSymbol> {
    match combined_symbols(first, second) {
        Some(c) => Some(c),
        None => combined_symbols(second, first),
    }
}

/// Finds the symbol that a cell shows once `second_symbol` is drawn where
/// `first_symbol` was: the merge of the two, or `None` where either is not a
/// box-drawing symbol.
pub fn find_next_symbol(first_symbol: &str, second_symbol: &str) -> (r: Option<&'static str>)
    ensures
        r is Some <==> next_symbol_spec(first_symbol@, second_symbol@) is Some,
        r matches Some(t) ==> t@ == seq![symbol_char(next_symbol_spec(first_symbol@, second_symbol@)->0)],
        r is Some <==> (symbol_of_text(first_symbol@) is Some && symbol_of_text(second_symbol@) is Some),
{
    match combine_symbols(first_symbol, second_symbol) {
        Some(s) => Some(s),
        None => combine_symbols(second_symbol, first_symbol),
    }
}

/// Merging two box-drawing symbols does not depend on which one is drawn
/// first.
pub proof fn law_next_symbol_symmetric(first: Seq<char>, second: Seq<char>)
    ensures
        next_symbol_spec(first, second) == next_symbol_spec(second, first),
{
}

/// Merging two box-drawing symbols gives the symbol whose lines are the
/// lines of both.
pub proof fn law_next_symbol_joins_arms(first: Seq<char>, second: Seq<char>)
    requires
        symbol_of_text(first) is Some,
        symbol_of_text(second) is Some,
    ensures
        next_symbol_spec(first, second) is Some,
        ({
            let a = symbol_of_text(first)->0;
            let b = symbol_of_text(second)->0;
            let c = next_symbol_spec(first, second)->0;
            arms(c) == arms_union(arms(a), arms(b))
        }),
{
    let a = symbol_of_text(first)->0;
    let b = symbol_of_text(second)->0;
    let u = arms_union(arms(a), arms(b));
    let w = choose|w: BoxSymbol| arms(w) == u;
    assert(exists|w: BoxSymbol| arms(w) == u) by {
        assert(arms(combine_witness(a, b)) == u);
    }
    let v = choose|v: BoxSymbol| arms(v) == arms_union(arms(b), arms(a));
    assert(arms_union(arms(b), arms(a)) == u);
}

/// A symbol whose lines are those of `a` and `b` together.
pub open spec fn combine_witness(a: BoxSymbol, b: BoxSymbol) -> BoxSymbol {
    let u = arms_union(arms(a), arms(b));
    if u.up && u.down && u.left && u.right {
        BoxSymbol::Cross
    } else if u.up && u.down && u.left {
        BoxSymbol::VerticalLeft
    } else if u.up && u.down && u.right {
        BoxSymbol::VerticalRight
    } else if u.left && u.right && u.down {
        BoxSymbol::HorizontalDown
    } else if u.left && u.right && u.up {
        BoxSymbol::HorizontalUp
    } else if u.down && u.left {
        BoxSymbol::TopRight
    } else if u.left && u.right {
        BoxSymbol::Horizontal
    } else if u.up && u.down {
        BoxSymbol::Vertical
    } else if u.down && u.right {
        BoxSymbol::TopLeft
    } else if u.up && u.left {
        BoxSymbol::BottomRight
    } else {
        BoxSymbol::BottomLeft
    }
}

/// Drawing a box-drawing symbol over itself leaves it as it was.
pub proof fn law_next_symbol_idempotent(s: Seq<char>)
    requires
        symbol_of_text(s) is Some,
    ensures
        next_symbol_spec(s, s) == symbol_of_text(s),
{
    let a = symbol_of_text(s)->0;
    assert(arms(a) == arms_union(arms(a), arms(a)));
    let w = choose|w: BoxSymbol| arms(w) == arms_union(arms(a), arms(a));
    lemma_arms_injective(w, a);
}

} // verus!
