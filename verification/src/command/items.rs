//! What a command asks of the items that its arguments hold.

use vstd::prelude::*;

use crate::command::options::{self, is_listed, Item, ItemView, Scan, ScanView, OPERAND};
use crate::protocol::wire;
use crate::text;

verus! {

/// The last item that is one of the given options.
pub open spec fn last_of(items: Seq<ItemView>, flags: Seq<char>) -> Option<ItemView>
    decreases items.len(),
{
    if items.len() == 0 {
        None
    } else if flags.contains(items.last().flag) {
        Some(items.last())
    } else {
        last_of(items.drop_last(), flags)
    }
}

/// The value of the last item that is one of the given options.
pub open spec fn value_of(items: Seq<ItemView>, flags: Seq<char>) -> Option<Seq<char>> {
    match last_of(items, flags) {
        Some(item) => Some(item.value),
        None => None,
    }
}

/// The letter of the last item that is one of the given options.
pub open spec fn flag_of(items: Seq<ItemView>, flags: Seq<char>) -> Option<char> {
    match last_of(items, flags) {
        Some(item) => Some(item.flag),
        None => None,
    }
}

/// The operands among the items.
pub open spec fn operands_of(items: Seq<ItemView>) -> Seq<Seq<char>>
    decreases items.len(),
{
    if items.len() == 0 {
        seq![]
    } else if items.last().flag == OPERAND {
        operands_of(items.drop_last()).push(items.last().value)
    } else {
        operands_of(items.drop_last())
    }
}

/// What is wrong with the first item that something is wrong with.
pub open spec fn first_problem(
    items: Seq<ItemView>,
    problem: spec_fn(ItemView) -> Option<Seq<char>>,
) -> Option<Seq<char>>
    decreases items.len(),
{
    if items.len() == 0 {
        None
    } else {
        match first_problem(items.drop_last(), problem) {
            Some(error) => Some(error),
            None => problem(items.last()),
        }
    }
}

/// Why the arguments of a command are refused: an item that is wrong in itself,
/// or what stopped the scan behind the items.
pub open spec fn refusal(
    scan: ScanView,
    problem: spec_fn(ItemView) -> Option<Seq<char>>,
) -> Option<Seq<char>> {
    match first_problem(scan.items, problem) {
        Some(error) => Some(error),
        None => scan.error,
    }
}

/// The first text of a list.
pub open spec fn first_of(list: Seq<Seq<char>>) -> Option<Seq<char>> {
    if list.len() > 0 {
        Some(list[0])
    } else {
        None
    }
}

/// The last operand of a command whose separator puts the operand behind it in
/// the place of those before.
pub open spec fn operand_of(scan: ScanView) -> Option<Seq<char>> {
    if scan.separated {
        first_of(scan.tail)
    } else {
        value_of(scan.items, " "@)
    }
}

pub fn last<'a>(items: &'a Vec<Item>, flags: &str) -> (item: Option<&'a Item>)
    ensures
        match last_of(options::item_views(items@), flags@) {
            Some(view) => item matches Some(found) && found@ == view,
            None => item is None,
        },
{
    let ghost views = options::item_views(items@);
    let mut index: usize = items.len();
    assert(views.take(index as int) =~= views);
    while index > 0
        invariant
            index <= items@.len(),
            views == options::item_views(items@),
            last_of(views, flags@) == last_of(views.take(index as int), flags@),
        decreases index,
    {
        index -= 1;
        assert(views.take(index + 1).drop_last() =~= views.take(index as int));
        assert(views.take(index + 1).last() == items@[index as int]@);
        if is_listed(flags, items[index].flag) {
            return Some(&items[index]);
        }
    }
    None
}

pub fn last_value(items: &Vec<Item>, flags: &str) -> (value: Option<String>)
    ensures
        wire::text_view(value) == value_of(options::item_views(items@), flags@),
{
    match last(items, flags) {
        Some(item) => Some(item.value.clone()),
        None => None,
    }
}

pub fn last_flag(items: &Vec<Item>, flags: &str) -> (flag: Option<char>)
    ensures
        flag == flag_of(options::item_views(items@), flags@),
{
    match last(items, flags) {
        Some(item) => Some(item.flag),
        None => None,
    }
}

pub fn operands(items: &Vec<Item>) -> (list: Vec<String>)
    ensures
        text::texts(list@) == operands_of(options::item_views(items@)),
{
    let ghost views = options::item_views(items@);
    let mut list: Vec<String> = Vec::new();
    assert(views.take(0) =~= seq![]);
    let mut index: usize = 0;
    while index < items.len()
        invariant
            index <= items@.len(),
            views == options::item_views(items@),
            text::texts(list@) =~= operands_of(views.take(index as int)),
        decreases items@.len() - index,
    {
        assert(views.take(index + 1).drop_last() =~= views.take(index as int));
        assert(views.take(index + 1).last() == items@[index as int]@);
        if items[index].flag == OPERAND {
            let ghost before = list@;
            list.push(items[index].value.clone());
            assert(text::texts(list@) =~= text::texts(before).push(items@[index as int].value@));
        }
        index += 1;
    }
    assert(views.take(index as int) =~= views);
    list
}

/// The operands among the items, and behind them the tail.
pub fn operands_and_tail(scan: &Scan) -> (list: Vec<String>)
    ensures
        text::texts(list@) == operands_of(scan@.items) + scan@.tail,
{
    let mut list = operands(&scan.items);
    let ghost start = text::texts(list@);
    let mut index: usize = 0;
    while index < scan.tail.len()
        invariant
            index <= scan.tail@.len(),
            text::texts(list@) =~= start + scan@.tail.take(index as int),
        decreases scan.tail@.len() - index,
    {
        let ghost before = list@;
        list.push(scan.tail[index].clone());
        assert(text::texts(list@) =~= text::texts(before).push(scan.tail@[index as int]@));
        assert(scan@.tail[index as int] == scan.tail@[index as int]@);
        index += 1;
    }
    assert(scan@.tail.take(index as int) =~= scan@.tail);
    list
}

pub fn first(list: &Vec<String>) -> (value: Option<String>)
    ensures
        wire::text_view(value) == first_of(text::texts(list@)),
{
    if list.len() > 0 {
        Some(list[0].clone())
    } else {
        None
    }
}

pub fn operand(scan: &Scan) -> (value: Option<String>)
    ensures
        wire::text_view(value) == operand_of(scan@),
{
    if scan.separated {
        first(&scan.tail)
    } else {
        last_value(&scan.items, " ")
    }
}

/// Looks for the first item that a check finds something wrong with.
pub(crate) fn first_wrong<F: Fn(&Item) -> Option<String>>(
    items: &Vec<Item>,
    check: F,
    Ghost(problem): Ghost<spec_fn(ItemView) -> Option<Seq<char>>>,
) -> (error: Option<String>)
    requires
        forall|item: &Item| call_requires(check, (item,)),
        forall|item: &Item, found: Option<String>| #[trigger]
            call_ensures(check, (item,), found) ==> wire::text_view(found) == problem(item@),
    ensures
        wire::text_view(error) == first_problem(options::item_views(items@), problem),
{
    let ghost views = options::item_views(items@);
    assert(views.take(0) =~= seq![]);
    let mut index: usize = 0;
    while index < items.len()
        invariant
            index <= items@.len(),
            views == options::item_views(items@),
            forall|item: &Item| call_requires(check, (item,)),
            forall|item: &Item, found: Option<String>| #[trigger]
                call_ensures(check, (item,), found) ==> wire::text_view(found) == problem(item@),
            first_problem(views.take(index as int), problem) is None,
        decreases items@.len() - index,
    {
        assert(views.take(index + 1).drop_last() =~= views.take(index as int));
        assert(views.take(index + 1).last() == items@[index as int]@);
        let found = check(&items[index]);
        if found.is_some() {
            proof {
                lemma_first_problem(views, index + 1, problem);
            }
            return found;
        }
        index += 1;
    }
    assert(views.take(index as int) =~= views);
    None
}

proof fn lemma_first_problem(
    items: Seq<ItemView>,
    count: int,
    problem: spec_fn(ItemView) -> Option<Seq<char>>,
)
    requires
        0 <= count <= items.len(),
        first_problem(items.take(count), problem) is Some,
    ensures
        first_problem(items, problem) == first_problem(items.take(count), problem),
    decreases items.len(),
{
    if count < items.len() {
        assert(items.drop_last().take(count) =~= items.take(count));
        lemma_first_problem(items.drop_last(), count, problem);
    } else {
        assert(items.take(count) =~= items);
    }
}

} // verus!
