use type_me::rect::Rect;
use type_me::vegetables::F_Product;

#[test]
fn produce_prices_are_fixed_by_kind() {
    assert_eq!(F_Product::price(&F_Product::Carrot("garden carrot")), 10);
    assert_eq!(F_Product::price(&F_Product::Radish("red radish")), 20);
    assert_eq!(F_Product::price(&F_Product::Cabbage("green cabbage")), 30);
}

#[test]
fn rect_area_multiplies_the_sides() {
    let rect = Rect { width: 20, height: 10 };
    assert_eq!(rect.area(), 200);
}

#[test]
fn rect_area_handles_negative_sides() {
    let rect = Rect { width: -3, height: 7 };
    assert_eq!(rect.area(), -21);
}
