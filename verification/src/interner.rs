//! A string interner: each distinct string gets a small number, its symbol,
//! by which the parsed program refers to it.

use vstd::prelude::*;

verus! {

/// The number that stands for an interned string.
#[derive(Clone, Copy, Debug, PartialEq, Eq, Hash, Structural)]
pub struct Symbol(pub usize);

impl Symbol {
    /// The symbol with the given number.
    pub fn new(v: usize) -> (symbol: Self)
        ensures
            symbol.0 == v,
    {
        Symbol(v)
    }

    /// The number of the symbol.
    pub fn index(self) -> (v: usize)
        ensures
            v == self.0,
    {
        self.0
    }
}

/// The place of the first string equal to `value` among `strings`, or the
/// length of `strings` where there is none.
pub open spec fn first_index_of(strings: Seq<Seq<char>>, value: Seq<char>) -> nat
    decreases strings.len(),
{
    if strings.len() == 0 {
        0
    } else if strings[0] == value {
        0
    } else {
        1 + first_index_of(strings.drop_first(), value)
    }
}

/// Whether no string occurs twice.
pub open spec fn distinct(strings: Seq<Seq<char>>) -> bool {
    forall|i: int, j: int| 0 <= i < j < strings.len() ==> strings[i] != strings[j]
}

/// `first_index_of` finds the first occurrence, and only an occurrence.
pub proof fn lemma_first_index_of(strings: Seq<Seq<char>>, value: Seq<char>)
    ensures
        first_index_of(strings, value) <= strings.len(),
        first_index_of(strings, value) < strings.len() ==> strings[first_index_of(
            strings,
            value,
        ) as int] == value,
        forall|i: int| 0 <= i < first_index_of(strings, value) ==> strings[i] != value,
    decreases strings.len(),
{
    if strings.len() > 0 && strings[0] != value {
        let rest = strings.drop_first();
        lemma_first_index_of(rest, value);
        assert forall|i: int| 0 <= i < first_index_of(strings, value) implies strings[i]
            != value by {
            if i > 0 {
                assert(strings[i] == rest[i - 1]);
            }
        }
    }
}

/// The string that a symbol stands for, if it stands for one.
pub open spec fn text_of(names: Seq<Seq<char>>, symbol: Symbol) -> Option<Seq<char>> {
    if symbol.0 < names.len() {
        Some(names[symbol.0 as int])
    } else {
        None
    }
}

/// Whether `more` holds the strings of `names` at their places, and maybe
/// others behind them: every symbol of `names` stands for the same string in
/// `more`.
pub open spec fn extends(more: Seq<Seq<char>>, names: Seq<Seq<char>>) -> bool {
    &&& names.len() <= more.len()
    &&& forall|i: int| 0 <= i < names.len() ==> more[i] == names[i]
}

/// The table after `text` was interned: as it was where it holds the text,
/// else with the text behind its other strings.
pub open spec fn intern(names: Seq<Seq<char>>, text: Seq<char>) -> Seq<Seq<char>> {
    if first_index_of(names, text) < names.len() {
        names
    } else {
        names.push(text)
    }
}

/// The table after the texts were interned one after the other.
pub open spec fn intern_all(names: Seq<Seq<char>>, texts: Seq<Seq<char>>) -> Seq<Seq<char>>
    decreases texts.len(),
{
    if texts.len() == 0 {
        names
    } else {
        intern(intern_all(names, texts.drop_last()), texts.last())
    }
}

/// Interning a row of one text is interning the text.
pub proof fn lemma_intern_all_one(names: Seq<Seq<char>>, text: Seq<char>)
    ensures
        intern_all(names, seq![text]) == intern(names, text),
{
    assert(seq![text].drop_last() =~= Seq::<Seq<char>>::empty());
    assert(intern_all(names, seq![text].drop_last()) == names);
}

/// Interning two rows of texts one after the other is interning them as one
/// row.
pub proof fn lemma_intern_all_concat(
    names: Seq<Seq<char>>,
    first: Seq<Seq<char>>,
    second: Seq<Seq<char>>,
)
    ensures
        intern_all(names, first + second) == intern_all(intern_all(names, first), second),
    decreases second.len(),
{
    if second.len() == 0 {
        assert(first + second =~= first);
    } else {
        assert((first + second).drop_last() =~= first + second.drop_last());
        lemma_intern_all_concat(names, first, second.drop_last());
    }
}

/// In a table without repetitions a string has one symbol only: the place
/// where it is first found.
pub proof fn lemma_symbol_is_unique(names: Seq<Seq<char>>, symbol: Symbol, text: Seq<char>)
    requires
        distinct(names),
        text_of(names, symbol) == Some(text),
    ensures
        symbol.0 == first_index_of(names, text),
{
    lemma_first_index_of(names, text);
    let first = first_index_of(names, text) as int;
    if first < symbol.0 {
        assert(names[first] != names[symbol.0 as int]);
    }
}

/// A table of strings in which every string has one symbol.
pub struct StringInterner {
    symbols: Vec<String>,
}

impl View for StringInterner {
    type V = Seq<Seq<char>>;

    /// The interned strings, each at the place that its symbol names.
    closed spec fn view(&self) -> Seq<Seq<char>> {
        Seq::new(self.symbols@.len(), |i: int| self.symbols@[i]@)
    }
}

impl StringInterner {
    /// An interner that holds no string.
    pub fn new() -> (interner: Self)
        ensures
            interner@ == Seq::<Seq<char>>::empty(),
    {
        let interner = StringInterner { symbols: Vec::new() };
        assert(interner@ =~= Seq::<Seq<char>>::empty());
        interner
    }

    /// The symbol of `value`: the one it has, or a new one, which is the
    /// number of strings interned before.
    pub fn get_symbol(&mut self, value: String) -> (symbol: Symbol)
        ensures
            symbol.0 == first_index_of(old(self)@, value@),
            symbol.0 < final(self)@.len(),
            final(self)@[symbol.0 as int] == value@,
            final(self)@ == if symbol.0 < old(self)@.len() {
                old(self)@
            } else {
                old(self)@.push(value@)
            },
            final(self)@ == intern(old(self)@, value@),
            distinct(old(self)@) ==> distinct(final(self)@),
            extends(final(self)@, old(self)@),
    {
        let mut i: usize = 0;
        while i < self.symbols.len()
            invariant
                i <= self.symbols@.len(),
                self == old(self),
                forall|k: int| 0 <= k < i ==> self@[k] != value@,
            decreases self.symbols@.len() - i,
        {
            if self.symbols[i] == value {
                proof {
                    lemma_first_index_of(self@, value@);
                    assert(self@[i as int] == value@);
                }
                return Symbol::new(i);
            }
            i += 1;
        }
        proof {
            lemma_first_index_of(self@, value@);
        }
        self.symbols.push(value);
        assert(self@ =~= old(self)@.push(value@));
        Symbol::new(i)
    }

    /// The string that the symbol stands for, if it stands for one.
    pub fn get_value(&self, s: Symbol) -> (value: Option<String>)
        ensures
            value is Some <==> s.0 < self@.len(),
            value is Some ==> value->0@ == self@[s.0 as int],
    {
        if s.0 < self.symbols.len() {
            Some(self.symbols[s.0].clone())
        } else {
            None
        }
    }

    /// The number of strings interned.
    pub fn len(&self) -> (n: usize)
        ensures
            n == self@.len(),
    {
        self.symbols.len()
    }
}

} // verus!
