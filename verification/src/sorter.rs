//! How listings are ordered.

use crate::text::{
    chars_of, compare_text, digit_number, digit_of, is_ascii_digit, is_digit, lowercase, text_sign,
    to_lowercase,
};
use crate::args::SorterKind;
use crate::ranking::{
    lemma_permutation_of_slots, par_sort_slots, slot_list, slots, weakly_orders, SlotOrder,
};
use std::cmp::Ordering;
use vstd::prelude::*;
use vstd::string::*;

verus! {

/// The options of a sort.
#[derive(Debug, Clone, Copy, PartialEq, Eq, Structural)]
pub struct SortOptions {
    pub reverse: bool,
    pub dirs_first: bool,
    pub case_sensitive: bool,
    pub natural: bool,
}

impl Default for SortOptions {
    fn default() -> (r: Self)
        ensures
            r == (SortOptions {
                reverse: false,
                dirs_first: false,
                case_sensitive: false,
                natural: false,
            }),
    {
        SortOptions { reverse: false, dirs_first: false, case_sensitive: false, natural: false }
    }
}

/// How two entries compare when directories go first: a directory comes
/// before anything that is none; otherwise the two are tied.
pub fn compare_dirs_first(a_is_dir: bool, b_is_dir: bool, dirs_first: bool) -> (r: Ordering)
    ensures
        (r == Ordering::Less) == (dirs_first && a_is_dir && !b_is_dir),
        (r == Ordering::Greater) == (dirs_first && !a_is_dir && b_is_dir),
{
    if !dirs_first {
        Ordering::Equal
    } else if a_is_dir && !b_is_dir {
        Ordering::Less
    } else if !a_is_dir && b_is_dir {
        Ordering::Greater
    } else {
        Ordering::Equal
    }
}

/// What is left of a text after the digits it starts with.
pub open spec fn after_run(s: Seq<char>) -> Seq<char>
    decreases s.len(),
{
    if s.len() > 0 && is_digit(s[0]) {
        after_run(s.skip(1))
    } else {
        s
    }
}

/// The number spelled by the digits a text starts with, continuing from
/// `acc`; it wraps round where it outgrows 64 bits.
pub open spec fn run_value(s: Seq<char>, acc: u64) -> u64
    decreases s.len(),
{
    if s.len() > 0 && is_digit(s[0]) {
        run_value(s.skip(1), acc.wrapping_mul(10).wrapping_add(digit_number(s[0])))
    } else {
        acc
    }
}

/// How two names compare in natural order: runs of digits compare as
/// numbers, everything else character by character, and a name that ends
/// first comes first. Negative, zero or positive as the first name comes
/// before, ties with or comes after the second.
pub open spec fn natural_sign(a: Seq<char>, b: Seq<char>) -> int
    decreases a.len(),
{
    if a.len() == 0 && b.len() == 0 {
        0
    } else if a.len() == 0 {
        -1
    } else if b.len() == 0 {
        1
    } else if is_digit(a[0]) && is_digit(b[0]) {
        if run_value(a, 0) < run_value(b, 0) {
            -1
        } else if run_value(a, 0) > run_value(b, 0) {
            1
        } else if after_run(a).len() < a.len() {
            natural_sign(after_run(a), after_run(b))
        } else {
            0
        }
    } else if a[0] < b[0] {
        -1
    } else if a[0] > b[0] {
        1
    } else {
        natural_sign(a.skip(1), b.skip(1))
    }
}

/// What follows a run of digits is a later part of the text, and a proper
/// one where the text starts with a digit.
pub proof fn lemma_after_run(s: Seq<char>)
    ensures
        after_run(s).len() <= s.len(),
        after_run(s) == s.skip(s.len() - after_run(s).len()),
        s.len() > 0 && is_digit(s[0]) ==> after_run(s).len() < s.len(),
    decreases s.len(),
{
    if s.len() > 0 && is_digit(s[0]) {
        lemma_after_run(s.skip(1));
        let rest = s.skip(1);
        assert(rest.skip(rest.len() - after_run(rest).len()) =~= s.skip(
            s.len() - after_run(s).len(),
        ));
    } else {
        assert(s.skip(0) =~= s);
    }
}

/// Reads the run of digits that starts at `from`: its number and where it
/// ends.
pub fn read_run(s: &[char], from: usize) -> (r: (u64, usize))
    requires
        from < s@.len(),
        is_digit(s@[from as int]),
    ensures
        r.0 == run_value(s@.skip(from as int), 0),
        from < r.1 <= s@.len(),
        s@.skip(r.1 as int) == after_run(s@.skip(from as int)),
{
    let mut value: u64 = 0;
    let mut k: usize = from;
    while k < s.len() && is_ascii_digit(s[k])
        invariant
            from <= k <= s@.len(),
            k == from ==> value == 0,
            run_value(s@.skip(from as int), 0) == run_value(s@.skip(k as int), value),
            after_run(s@.skip(from as int)) == after_run(s@.skip(k as int)),
        decreases s@.len() - k,
    {
        proof {
            assert(s@.skip(k as int)[0] == s@[k as int]);
            assert(s@.skip(k as int).skip(1) =~= s@.skip(k + 1));
        }
        value = value.wrapping_mul(10).wrapping_add(digit_of(s[k]));
        k += 1;
    }
    proof {
        if k < s@.len() {
            assert(s@.skip(k as int)[0] == s@[k as int]);
        }
    }
    (value, k)
}

/// How two names compare in natural order.
pub fn natural_sign_of(a: &[char], b: &[char]) -> (r: i8)
    ensures
        r == natural_sign(a@, b@),
{
    let mut i: usize = 0;
    let mut j: usize = 0;
    assert(a@.skip(0) =~= a@ && b@.skip(0) =~= b@);
    while i < a.len() && j < b.len()
        invariant
            i <= a@.len(),
            j <= b@.len(),
            natural_sign(a@, b@) == natural_sign(a@.skip(i as int), b@.skip(j as int)),
        decreases a@.len() - i,
    {
        let ghost x = a@.skip(i as int);
        let ghost y = b@.skip(j as int);
        assert(x[0] == a@[i as int] && y[0] == b@[j as int]);
        if is_ascii_digit(a[i]) && is_ascii_digit(b[j]) {
            let (va, ni) = read_run(a, i);
            let (vb, nj) = read_run(b, j);
            proof {
                lemma_after_run(x);
            }
            if va < vb {
                return -1;
            }
            if va > vb {
                return 1;
            }
            i = ni;
            j = nj;
        } else {
            if a[i] < b[j] {
                return -1;
            }
            if a[i] > b[j] {
                return 1;
            }
            proof {
                assert(x.skip(1) =~= a@.skip(i + 1));
                assert(y.skip(1) =~= b@.skip(j + 1));
            }
            i += 1;
            j += 1;
        }
    }
    if i >= a.len() && j >= b.len() {
        0
    } else if i >= a.len() {
        -1
    } else {
        1
    }
}

/// The order that stands for a sign.
pub fn order_of(sign: i8) -> (r: Ordering)
    ensures
        (r == Ordering::Less) == (sign < 0),
        (r == Ordering::Greater) == (sign > 0),
{
    if sign < 0 {
        Ordering::Less
    } else if sign > 0 {
        Ordering::Greater
    } else {
        Ordering::Equal
    }
}

/// Compares two names in natural order.
pub fn natural_cmp(a: &str, b: &str) -> (r: Ordering)
    ensures
        (r == Ordering::Less) == (natural_sign(a@, b@) < 0),
        (r == Ordering::Greater) == (natural_sign(a@, b@) > 0),
{
    let x = chars_of(a);
    let y = chars_of(b);
    order_of(natural_sign_of(x.as_slice(), y.as_slice()))
}

/// What a listing is sorted by, for one entry.
#[derive(Debug)]
pub struct SortItem {
    /// Which entry of the listing the item stands for.
    pub index: usize,
    /// The file's name.
    pub name: String,
    /// Whether it is a directory.
    pub is_dir: bool,
    /// Its size in bytes.
    pub size: u64,
    /// When it was last modified, in seconds since the epoch.
    pub modified: u64,
}

/// What a sort item holds.
pub struct ItemView {
    pub index: usize,
    pub name: Seq<char>,
    pub is_dir: bool,
    pub size: u64,
    pub modified: u64,
}

impl View for SortItem {
    type V = ItemView;

    open spec fn view(&self) -> ItemView {
        ItemView {
            index: self.index,
            name: self.name@,
            is_dir: self.is_dir,
            size: self.size,
            modified: self.modified,
        }
    }
}

/// What the sort items of a list hold.
pub open spec fn item_views(s: Seq<SortItem>) -> Seq<ItemView> {
    s.map_values(|i: SortItem| i@)
}

/// How directories-first decides between two entries, in a sort that may be
/// reversed: zero where it does not decide.
pub open spec fn dirs_sign(a: ItemView, b: ItemView, o: SortOptions) -> int {
    if o.dirs_first && a.is_dir && !b.is_dir {
        if o.reverse {
            1
        } else {
            -1
        }
    } else if o.dirs_first && !a.is_dir && b.is_dir {
        if o.reverse {
            -1
        } else {
            1
        }
    } else {
        0
    }
}

/// How two names compare under the options: in natural order, else in byte
/// order, case aside unless the sort is case sensitive.
pub open spec fn name_sign(a: Seq<char>, b: Seq<char>, o: SortOptions) -> int {
    name_sign_given(a, b, o, lowercase(a), lowercase(b))
}

/// How two names compare under the options, where `lower_a` and `lower_b`
/// are the names in lowercase: in natural order, else in byte order of the
/// names themselves where the sort is case sensitive and of their lowercase
/// forms where it is not.
pub open spec fn name_sign_given(
    a: Seq<char>,
    b: Seq<char>,
    o: SortOptions,
    lower_a: Seq<char>,
    lower_b: Seq<char>,
) -> int {
    if o.natural {
        natural_sign(a, b)
    } else if o.case_sensitive {
        text_sign(a, b)
    } else {
        text_sign(lower_a, lower_b)
    }
}

/// A sign turned round where the sort is reversed.
pub open spec fn turned(sign: int, reverse: bool) -> int {
    if reverse {
        -sign
    } else {
        sign
    }
}

/// How two entries compare by name.
pub open spec fn alphabetical_sign(a: ItemView, b: ItemView, o: SortOptions) -> int {
    if dirs_sign(a, b, o) != 0 {
        dirs_sign(a, b, o)
    } else {
        turned(name_sign(a.name, b.name, o), o.reverse)
    }
}

/// How two numbers compare.
pub open spec fn number_sign(a: u64, b: u64) -> int {
    if a < b {
        -1
    } else if a > b {
        1
    } else {
        0
    }
}

/// How two entries compare by date: the older first, unless reversed.
pub open spec fn date_sign(a: ItemView, b: ItemView, o: SortOptions) -> int {
    if dirs_sign(a, b, o) != 0 {
        dirs_sign(a, b, o)
    } else {
        turned(number_sign(a.modified, b.modified), o.reverse)
    }
}

/// How two entries compare by size: the larger first, unless reversed.
pub open spec fn size_sign(a: ItemView, b: ItemView, o: SortOptions) -> int {
    if dirs_sign(a, b, o) != 0 {
        dirs_sign(a, b, o)
    } else {
        turned(number_sign(a.size, b.size), !o.reverse)
    }
}

/// How directories-first decides between two entries.
pub fn dirs_sign_of(a: &SortItem, b: &SortItem, o: SortOptions) -> (r: i8)
    ensures
        r == dirs_sign(a@, b@, o),
{
    if o.dirs_first && a.is_dir && !b.is_dir {
        if o.reverse {
            1
        } else {
            -1
        }
    } else if o.dirs_first && !a.is_dir && b.is_dir {
        if o.reverse {
            -1
        } else {
            1
        }
    } else {
        0
    }
}

/// A sign turned round where asked.
pub fn turn(sign: i8, reverse: bool) -> (r: i8)
    requires
        -1 <= sign <= 1,
    ensures
        r == turned(sign as int, reverse),
{
    if reverse {
        -sign
    } else {
        sign
    }
}

/// How two numbers compare.
pub fn number_sign_of(a: u64, b: u64) -> (r: i8)
    ensures
        r == number_sign(a, b),
{
    if a < b {
        -1
    } else if a > b {
        1
    } else {
        0
    }
}

/// The sign of a natural comparison, as one of -1, 0 and 1.
pub fn unit_sign(sign: i8) -> (r: i8)
    ensures
        -1 <= r <= 1,
        (r < 0) == (sign < 0),
        (r > 0) == (sign > 0),
{
    if sign < 0 {
        -1
    } else if sign > 0 {
        1
    } else {
        0
    }
}

/// How two entries compare by name.
pub fn alphabetical_sign_of(a: &SortItem, b: &SortItem, o: SortOptions) -> (r: i8)
    ensures
        (r < 0) == (alphabetical_sign(a@, b@, o) < 0),
        (r > 0) == (alphabetical_sign(a@, b@, o) > 0),
{
    let dirs = dirs_sign_of(a, b, o);
    if dirs != 0 {
        return dirs;
    }
    let names = if o.natural || o.case_sensitive {
        // the lowercase forms are not looked at
        name_sign_of(a.name.as_str(), b.name.as_str(), o, a.name.as_str(), b.name.as_str())
    } else {
        let x = to_lowercase(a.name.as_str());
        let y = to_lowercase(b.name.as_str());
        name_sign_of(a.name.as_str(), b.name.as_str(), o, x.as_str(), y.as_str())
    };
    turn(names, o.reverse)
}

/// How two names compare under the options, given the names and their
/// lowercase forms; the result is one of -1, 0 and 1.
pub fn name_sign_of(a: &str, b: &str, o: SortOptions, lower_a: &str, lower_b: &str) -> (r: i8)
    ensures
        -1 <= r <= 1,
        (r < 0) == (name_sign_given(a@, b@, o, lower_a@, lower_b@) < 0),
        (r > 0) == (name_sign_given(a@, b@, o, lower_a@, lower_b@) > 0),
{
    let names = if o.natural {
        let x = chars_of(a);
        let y = chars_of(b);
        natural_sign_of(x.as_slice(), y.as_slice())
    } else if o.case_sensitive {
        compare_text(a, b)
    } else {
        compare_text(lower_a, lower_b)
    };
    unit_sign(names)
}

/// How two entries compare by date.
pub fn date_sign_of(a: &SortItem, b: &SortItem, o: SortOptions) -> (r: i8)
    ensures
        r == date_sign(a@, b@, o),
{
    let dirs = dirs_sign_of(a, b, o);
    if dirs != 0 {
        return dirs;
    }
    turn(number_sign_of(a.modified, b.modified), o.reverse)
}

/// How two entries compare by size.
pub fn size_sign_of(a: &SortItem, b: &SortItem, o: SortOptions) -> (r: i8)
    ensures
        r == size_sign(a@, b@, o),
{
    let dirs = dirs_sign_of(a, b, o);
    if dirs != 0 {
        return dirs;
    }
    turn(number_sign_of(a.size, b.size), !o.reverse)
}

/// The order of two entries by name.
pub fn alphabetical_order(a: &SortItem, b: &SortItem, o: SortOptions) -> (r: Ordering)
    ensures
        (r == Ordering::Less) == (alphabetical_sign(a@, b@, o) < 0),
        (r == Ordering::Greater) == (alphabetical_sign(a@, b@, o) > 0),
{
    order_of(alphabetical_sign_of(a, b, o))
}

/// The order of two entries by date.
pub fn date_order(a: &SortItem, b: &SortItem, o: SortOptions) -> (r: Ordering)
    ensures
        (r == Ordering::Less) == (date_sign(a@, b@, o) < 0),
        (r == Ordering::Greater) == (date_sign(a@, b@, o) > 0),
{
    order_of(date_sign_of(a, b, o))
}

/// The order of two entries by size.
pub fn size_order(a: &SortItem, b: &SortItem, o: SortOptions) -> (r: Ordering)
    ensures
        (r == Ordering::Less) == (size_sign(a@, b@, o) < 0),
        (r == Ordering::Greater) == (size_sign(a@, b@, o) > 0),
{
    order_of(size_sign_of(a, b, o))
}

/// How two entries compare under a sorter of the kind given.
pub open spec fn kind_sign(kind: SorterKind, a: ItemView, b: ItemView, o: SortOptions) -> int {
    match kind {
        SorterKind::Alphabetical => alphabetical_sign(a, b, o),
        SorterKind::Date => date_sign(a, b, o),
        SorterKind::Size => size_sign(a, b, o),
    }
}

/// Comparing under a sorter of the kind given, as a function.
pub open spec fn by_kind(kind: SorterKind, o: SortOptions) -> spec_fn(ItemView, ItemView) -> int {
    |a: ItemView, b: ItemView| kind_sign(kind, a, b, o)
}

/// Whether no later entry of the list comes before an earlier one under a
/// comparison.
pub open spec fn ordered_by(s: Seq<ItemView>, sign: spec_fn(ItemView, ItemView) -> int) -> bool {
    forall|i: int, j: int| 0 <= i < j < s.len() ==> sign(#[trigger] s[j], #[trigger] s[i]) >= 0
}

/// Whether a list holds the entries of another in some other arrangement:
/// each place of the one takes the entry of one place of the other, and no
/// place of the other is taken twice or left out.
pub open spec fn rearranged(after: Seq<ItemView>, before: Seq<ItemView>) -> bool {
    exists|order: Seq<usize>|
        #![trigger slots_taken(order, before.len())]
        slots_taken(order, before.len()) && after.len() == before.len() && forall|k: int|
            0 <= k < after.len() ==> after[k] == before[#[trigger] order[k] as int]
}

/// Whether an arrangement takes each of `n` slots once.
pub open spec fn slots_taken(order: Seq<usize>, n: nat) -> bool {
    order.to_multiset() == slots(n).to_multiset()
}

/// The order of the slots of a listing under a sorter.
pub struct ItemOrder<'a> {
    pub items: &'a [SortItem],
    pub kind: SorterKind,
    pub options: SortOptions,
}

impl<'a> SlotOrder for ItemOrder<'a> {
    open spec fn slot_count(&self) -> nat {
        self.items@.len()
    }

    open spec fn goes_before(&self, a: usize, b: usize) -> bool {
        a < self.items@.len() && b < self.items@.len() && kind_sign(
            self.kind,
            self.items@[a as int]@,
            self.items@[b as int]@,
            self.options,
        ) < 0
    }

    fn precedes(&self, a: usize, b: usize) -> (r: bool) {
        let x = &self.items[a];
        let y = &self.items[b];
        match self.kind {
            SorterKind::Alphabetical => alphabetical_sign_of(x, y, self.options) < 0,
            SorterKind::Date => date_sign_of(x, y, self.options) < 0,
            SorterKind::Size => size_sign_of(x, y, self.options) < 0,
        }
    }
}

/// Dates and sizes give an order a sort can rely on.
pub proof fn lemma_numbers_order(by: ItemOrder)
    requires
        by.kind != SorterKind::Alphabetical,
    ensures
        weakly_orders(by),
{
}

impl Clone for SortItem {
    fn clone(&self) -> (r: Self)
        ensures
            r@ == self@,
    {
        SortItem {
            index: self.index,
            name: self.name.clone(),
            is_dir: self.is_dir,
            size: self.size,
            modified: self.modified,
        }
    }
}

/// Rearranges a listing under a sorter of the kind given. Sorting by date
/// or by size leaves no later entry before an earlier one; of sorting by
/// name only the rearrangement is promised.
pub fn sort_entries(entries: &mut Vec<SortItem>, kind: SorterKind, options: SortOptions)
    ensures
        rearranged(item_views(final(entries)@), item_views(old(entries)@)),
        kind != SorterKind::Alphabetical ==> ordered_by(
            item_views(final(entries)@),
            by_kind(kind, options),
        ),
{
    let n = entries.len();
    let ghost before = item_views(entries@);
    let mut order = slot_list(n);
    let by = ItemOrder { items: entries.as_slice(), kind, options };
    par_sort_slots(&mut order, &by);
    proof {
        if kind != SorterKind::Alphabetical {
            lemma_numbers_order(by);
        }
        lemma_permutation_of_slots(order@, n as nat);
    }
    let mut out: Vec<SortItem> = Vec::new();
    let mut i: usize = 0;
    while i < n
        invariant
            i <= n,
            n == entries@.len(),
            before == item_views(entries@),
            order@.len() == n,
            forall|k: int| 0 <= k < n ==> (#[trigger] order@[k]) < n,
            out@.len() == i,
            forall|k: int| 0 <= k < i ==> (#[trigger] out@[k])@ == before[order@[k] as int],
        decreases n - i,
    {
        let slot = order[i];
        assert(before[slot as int] == entries@[slot as int]@);
        out.push(entries[slot].clone());
        i += 1;
    }
    let ghost after = item_views(out@);
    proof {
        assert(slots_taken(order@, before.len()));
        assert forall|k: int| 0 <= k < after.len() implies after[k] == before[#[trigger] order@[k] as int] by {
            assert(after[k] == out@[k]@);
        }
        if kind != SorterKind::Alphabetical {
            assert forall|i: int, j: int| 0 <= i < j < after.len() implies by_kind(kind, options)(
                #[trigger] after[j],
                #[trigger] after[i],
            ) >= 0 by {
                assert(!by.goes_before(order@[j], order@[i]));
                assert(after[j] == out@[j]@ && after[i] == out@[i]@);
            }
        }
    }
    *entries = out;
}

/// Sorts a listing by name.
pub struct AlphabeticalSorter;

/// Sorts a listing by date.
pub struct DateSorter;

/// Sorts a listing by size.
pub struct SizeSorter;

/// What orders a listing.
pub trait FileSorter {
    /// Rearranges the entries under the options; none is lost and none is
    /// added.
    fn sort_files_with_metadata(&self, entries: &mut Vec<SortItem>, options: SortOptions)
        ensures
            rearranged(item_views(final(entries)@), item_views(old(entries)@)),
    ;
}

impl FileSorter for AlphabeticalSorter {
    /// Rearranges the entries by name under the options.
    fn sort_files_with_metadata(&self, entries: &mut Vec<SortItem>, options: SortOptions) {
        sort_entries(entries, SorterKind::Alphabetical, options);
    }
}

impl FileSorter for DateSorter {
    /// Rearranges the entries by date under the options.
    fn sort_files_with_metadata(&self, entries: &mut Vec<SortItem>, options: SortOptions)
        ensures
            ordered_by(item_views(final(entries)@), by_kind(SorterKind::Date, options)),
    {
        sort_entries(entries, SorterKind::Date, options);
    }
}

impl FileSorter for SizeSorter {
    /// Rearranges the entries by size under the options.
    fn sort_files_with_metadata(&self, entries: &mut Vec<SortItem>, options: SortOptions)
        ensures
            ordered_by(item_views(final(entries)@), by_kind(SorterKind::Size, options)),
    {
        sort_entries(entries, SorterKind::Size, options);
    }
}

/// Sorts a listing with the sorter of the kind given.
pub fn sort_files(files: Vec<SortItem>, kind: SorterKind, options: SortOptions) -> (sorted: Vec<SortItem>)
    ensures
        rearranged(item_views(sorted@), item_views(files@)),
        kind != SorterKind::Alphabetical ==> ordered_by(item_views(sorted@), by_kind(kind, options)),
{
    let mut entries = files;
    match kind {
        SorterKind::Alphabetical => AlphabeticalSorter.sort_files_with_metadata(&mut entries, options),
        SorterKind::Date => DateSorter.sort_files_with_metadata(&mut entries, options),
        SorterKind::Size => SizeSorter.sort_files_with_metadata(&mut entries, options),
    }
    entries
}

} // verus!
