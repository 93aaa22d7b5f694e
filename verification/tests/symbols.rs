use diskonaut::symbols::{combine_symbols, find_next_symbol, symbol_from_text, symbol_text, BoxSymbol};

#[test]
fn combine_follows_the_table_order() {
    assert_eq!(combine_symbols("┐", "│"), Some("┤"));
    assert_eq!(combine_symbols("│", "┐"), None);
    assert_eq!(combine_symbols("─", "│"), Some("┼"));
    assert_eq!(combine_symbols("x", "│"), None);
}

#[test]
fn next_symbol_merges_either_way() {
    assert_eq!(find_next_symbol("│", "┐"), Some("┤"));
    assert_eq!(find_next_symbol("┐", "│"), Some("┤"));
    assert_eq!(find_next_symbol("┌", "┘"), Some("┼"));
    assert_eq!(find_next_symbol("┘", "└"), Some("┴"));
    assert_eq!(find_next_symbol(" ", "│"), None);
}

#[test]
fn next_symbol_of_a_symbol_with_itself() {
    for s in ["┐", "─", "│", "┌", "┘", "└", "┤", "├", "┬", "┴", "┼"].iter() {
        assert_eq!(find_next_symbol(s, s), Some(*s));
    }
}

#[test]
fn vertical_left_and_horizontal_up_make_a_cross() {
    assert_eq!(find_next_symbol("┤", "┴"), Some("┼"));
    assert_eq!(find_next_symbol("┴", "┤"), Some("┼"));
    assert_eq!(combine_symbols("┤", "┴"), Some("┼"));
}

#[test]
fn symbols_read_back() {
    assert_eq!(symbol_from_text(symbol_text(BoxSymbol::Cross)), Some(BoxSymbol::Cross));
    assert_eq!(symbol_from_text("┼┼"), None);
    assert_eq!(symbol_text(BoxSymbol::TopLeft), "┌");
}
