use vstd::prelude::*;
use crate::database::category_service::CategoryData;

verus! {

/// Number of categories in the built-in catalog.
pub const DEFAULT_CATEGORY_COUNT: usize = 40;

/// The built-in catalog, one row per category: key, display name, icon,
/// color and kind.
pub open spec fn default_catalog() -> Seq<(Seq<char>, Seq<char>, Seq<char>, Seq<char>, Seq<char>)> {
    seq![
        ("food"@, "餐饮"@, "restaurant"@, "orange"@, "expense"@),
        ("shopping"@, "购物"@, "shopping_cart"@, "pink"@, "expense"@),
        ("daily"@, "日用"@, "home"@, "blue"@, "expense"@),
        ("transport"@, "交通"@, "directions_car"@, "green"@, "expense"@),
        ("vegetables"@, "蔬菜"@, "eco"@, "green"@, "expense"@),
        ("fruits"@, "水果"@, "apple"@, "red"@, "expense"@),
        ("snacks"@, "零食"@, "cookie"@, "brown"@, "expense"@),
        ("sports"@, "运动"@, "fitness_center"@, "blue"@, "expense"@),
        ("entertainment"@, "娱乐"@, "movie"@, "purple"@, "expense"@),
        ("communication"@, "通讯"@, "phone"@, "blue"@, "expense"@),
        ("clothing"@, "服饰"@, "checkroom"@, "pink"@, "expense"@),
        ("beauty"@, "美容"@, "face"@, "pink"@, "expense"@),
        ("housing"@, "住房"@, "house"@, "brown"@, "expense"@),
        ("household"@, "居家"@, "chair"@, "grey"@, "expense"@),
        ("children"@, "孩子"@, "child_care"@, "yellow"@, "expense"@),
        ("elderly"@, "长辈"@, "elderly"@, "grey"@, "expense"@),
        ("social"@, "社交"@, "group"@, "blue"@, "expense"@),
        ("travel"@, "旅行"@, "flight"@, "cyan"@, "expense"@),
        ("tobacco"@, "烟酒"@, "local_bar"@, "red"@, "expense"@),
        ("digital"@, "数码"@, "devices"@, "blue"@, "expense"@),
        ("car"@, "汽车"@, "directions_car"@, "grey"@, "expense"@),
        ("medical"@, "医疗"@, "local_hospital"@, "red"@, "expense"@),
        ("books"@, "书籍"@, "book"@, "brown"@, "expense"@),
        ("study"@, "学习"@, "school"@, "blue"@, "expense"@),
        ("pets"@, "宠物"@, "pets"@, "orange"@, "expense"@),
        ("gift_money"@, "礼金"@, "card_giftcard"@, "red"@, "expense"@),
        ("gifts"@, "礼物"@, "redeem"@, "pink"@, "expense"@),
        ("office"@, "办公"@, "work"@, "grey"@, "expense"@),
        ("repair"@, "维修"@, "build"@, "orange"@, "expense"@),
        ("donation"@, "捐赠"@, "volunteer_activism"@, "green"@, "expense"@),
        ("lottery"@, "彩票"@, "casino"@, "yellow"@, "expense"@),
        ("friends"@, "亲友"@, "family_restroom"@, "blue"@, "expense"@),
        ("express"@, "快递"@, "local_shipping"@, "brown"@, "expense"@),
        ("settings"@, "设置"@, "settings"@, "grey"@, "expense"@),
        ("salary"@, "工资"@, "work"@, "green"@, "income"@),
        ("bonus"@, "奖金"@, "star"@, "yellow"@, "income"@),
        ("investment"@, "投资"@, "trending_up"@, "blue"@, "income"@),
        ("part_time"@, "兼职"@, "schedule"@, "orange"@, "income"@),
        ("gift"@, "礼金"@, "card_giftcard"@, "red"@, "income"@),
        ("other"@, "其他"@, "more_horiz"@, "grey"@, "income"@)
    ]
}

/// The fields of `d`, as text, in catalog order.
pub open spec fn data_row(d: CategoryData) -> (Seq<char>, Seq<char>, Seq<char>, Seq<char>, Seq<char>) {
    (d.category_id@, d.name@, d.icon@, d.color@, d.category_type@)
}

/// No two rows of the catalog share a key.
pub proof fn lemma_catalog_keys_distinct()
    ensures
        default_catalog().len() == DEFAULT_CATEGORY_COUNT,
        forall|i: int, j: int|
            0 <= i < DEFAULT_CATEGORY_COUNT && 0 <= j < DEFAULT_CATEGORY_COUNT && i != j
                ==> #[trigger] default_catalog()[i].0 != #[trigger] default_catalog()[j].0,
{
    reveal_strlit("food");
    reveal_strlit("shopping");
    reveal_strlit("daily");
    reveal_strlit("transport");
    reveal_strlit("vegetables");
    reveal_strlit("fruits");
    reveal_strlit("snacks");
    reveal_strlit("sports");
    reveal_strlit("entertainment");
    reveal_strlit("communication");
    reveal_strlit("clothing");
    reveal_strlit("beauty");
    reveal_strlit("housing");
    reveal_strlit("household");
    reveal_strlit("children");
    reveal_strlit("elderly");
    reveal_strlit("social");
    reveal_strlit("travel");
    reveal_strlit("tobacco");
    reveal_strlit("digital");
    reveal_strlit("car");
    reveal_strlit("medical");
    reveal_strlit("books");
    reveal_strlit("study");
    reveal_strlit("pets");
    reveal_strlit("gift_money");
    reveal_strlit("gifts");
    reveal_strlit("office");
    reveal_strlit("repair");
    reveal_strlit("donation");
    reveal_strlit("lottery");
    reveal_strlit("friends");
    reveal_strlit("express");
    reveal_strlit("settings");
    reveal_strlit("salary");
    reveal_strlit("bonus");
    reveal_strlit("investment");
    reveal_strlit("part_time");
    reveal_strlit("gift");
    reveal_strlit("other");
    let c = default_catalog();
    assert forall|i: int, j: int|
        0 <= i < DEFAULT_CATEGORY_COUNT && 0 <= j < DEFAULT_CATEGORY_COUNT && i != j
            implies #[trigger] c[i].0 != #[trigger] c[j].0 by {
        if c[i].0 == c[j].0 {
            assert(c[i].0.len() == c[j].0.len());
            assert(c[i].0[0] == c[j].0[0]);
            assert(c[i].0[1] == c[j].0[1]);
            assert(c[i].0[2] == c[j].0[2]);
        }
    }
}

fn catalog_entry(key: &str, name: &str, icon: &str, color: &str, kind: &str) -> (r: CategoryData)
    ensures
        data_row(r) == (key@, name@, icon@, color@, kind@),
{
    CategoryData {
        category_id: String::from_str(key),
        name: String::from_str(name),
        icon: String::from_str(icon),
        color: String::from_str(color),
        category_type: String::from_str(kind),
    }
}

/// The built-in catalog as category data, in catalog order.
pub fn default_categories() -> (r: Vec<CategoryData>)
    ensures
        r@.len() == DEFAULT_CATEGORY_COUNT,
        forall|i: int| 0 <= i < r@.len() ==> data_row(#[trigger] r@[i]) == default_catalog()[i],
{
    let mut v: Vec<CategoryData> = Vec::new();
    v.push(catalog_entry("food", "餐饮", "restaurant", "orange", "expense"));
    v.push(catalog_entry("shopping", "购物", "shopping_cart", "pink", "expense"));
    v.push(catalog_entry("daily", "日用", "home", "blue", "expense"));
    v.push(catalog_entry("transport", "交通", "directions_car", "green", "expense"));
    v.push(catalog_entry("vegetables", "蔬菜", "eco", "green", "expense"));
    v.push(catalog_entry("fruits", "水果", "apple", "red", "expense"));
    v.push(catalog_entry("snacks", "零食", "cookie", "brown", "expense"));
    v.push(catalog_entry("sports", "运动", "fitness_center", "blue", "expense"));
    v.push(catalog_entry("entertainment", "娱乐", "movie", "purple", "expense"));
    v.push(catalog_entry("communication", "通讯", "phone", "blue", "expense"));
    v.push(catalog_entry("clothing", "服饰", "checkroom", "pink", "expense"));
    v.push(catalog_entry("beauty", "美容", "face", "pink", "expense"));
    v.push(catalog_entry("housing", "住房", "house", "brown", "expense"));
    v.push(catalog_entry("household", "居家", "chair", "grey", "expense"));
    v.push(catalog_entry("children", "孩子", "child_care", "yellow", "expense"));
    v.push(catalog_entry("elderly", "长辈", "elderly", "grey", "expense"));
    v.push(catalog_entry("social", "社交", "group", "blue", "expense"));
    v.push(catalog_entry("travel", "旅行", "flight", "cyan", "expense"));
    v.push(catalog_entry("tobacco", "烟酒", "local_bar", "red", "expense"));
    v.push(catalog_entry("digital", "数码", "devices", "blue", "expense"));
    v.push(catalog_entry("car", "汽车", "directions_car", "grey", "expense"));
    v.push(catalog_entry("medical", "医疗", "local_hospital", "red", "expense"));
    v.push(catalog_entry("books", "书籍", "book", "brown", "expense"));
    v.push(catalog_entry("study", "学习", "school", "blue", "expense"));
    v.push(catalog_entry("pets", "宠物", "pets", "orange", "expense"));
    v.push(catalog_entry("gift_money", "礼金", "card_giftcard", "red", "expense"));
    v.push(catalog_entry("gifts", "礼物", "redeem", "pink", "expense"));
    v.push(catalog_entry("office", "办公", "work", "grey", "expense"));
    v.push(catalog_entry("repair", "维修", "build", "orange", "expense"));
    v.push(catalog_entry("donation", "捐赠", "volunteer_activism", "green", "expense"));
    v.push(catalog_entry("lottery", "彩票", "casino", "yellow", "expense"));
    v.push(catalog_entry("friends", "亲友", "family_restroom", "blue", "expense"));
    v.push(catalog_entry("express", "快递", "local_shipping", "brown", "expense"));
    v.push(catalog_entry("settings", "设置", "settings", "grey", "expense"));
    v.push(catalog_entry("salary", "工资", "work", "green", "income"));
    v.push(catalog_entry("bonus", "奖金", "star", "yellow", "income"));
    v.push(catalog_entry("investment", "投资", "trending_up", "blue", "income"));
    v.push(catalog_entry("part_time", "兼职", "schedule", "orange", "income"));
    v.push(catalog_entry("gift", "礼金", "card_giftcard", "red", "income"));
    v.push(catalog_entry("other", "其他", "more_horiz", "grey", "income"));
    assert(v@.map_values(|d: CategoryData| data_row(d)) =~= default_catalog());
    assert forall|i: int| 0 <= i < v@.len() implies data_row(#[trigger] v@[i]) == default_catalog()[i] by {
        assert(v@.map_values(|d: CategoryData| data_row(d))[i] == data_row(v@[i]));
    }
    v
}

} // verus!
