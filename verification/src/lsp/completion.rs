//! Code completion items and lists.
use vstd::prelude::*;

use crate::sort::{key_views, stable_order, stably_sorted, Key, SortKey};
use crate::text::{all_ascii, ascii_lower, chars_of, contains_str, lowercase, occurs_in, to_lowercase};

verus! {

/// The kind of a completion item.
#[derive(Debug, Clone, Copy, PartialEq, Eq, Structural)]
pub enum CompletionKind {
    /// テキスト
    Text,
    /// メソッド
    Method,
    /// 関数
    Function,
    /// コンストラクタ
    Constructor,
    /// フィールド
    Field,
    /// 変数
    Variable,
    /// クラス
    Class,
    /// インターフェース
    Interface,
    /// モジュール
    Module,
    /// プロパティ
    Property,
    /// ユニット
    Unit,
    /// 値
    Value,
    /// 列挙型
    Enum,
    /// キーワード
    Keyword,
    /// スニペット
    Snippet,
    /// 色
    Color,
    /// ファイル
    File,
    /// 参照
    Reference,
    /// フォルダ
    Folder,
    /// 列挙型メンバ
    EnumMember,
    /// 定数
    Constant,
    /// 構造体
    Struct,
    /// イベント
    Event,
    /// 演算子
    Operator,
    /// 型パラメータ
    TypeParameter,
    /// マクロ
    Macro,
}

/// The kind that the protocol's numeric completion item kind `code`
/// names; a code it does not name, and that of macros alike, counts as
/// text.
pub open spec fn kind_of_code(code: i32) -> CompletionKind {
    if code == 1 {
        CompletionKind::Text
    } else if code == 2 {
        CompletionKind::Method
    } else if code == 3 {
        CompletionKind::Function
    } else if code == 4 {
        CompletionKind::Constructor
    } else if code == 5 {
        CompletionKind::Field
    } else if code == 6 {
        CompletionKind::Variable
    } else if code == 7 {
        CompletionKind::Class
    } else if code == 8 {
        CompletionKind::Interface
    } else if code == 9 {
        CompletionKind::Module
    } else if code == 10 {
        CompletionKind::Property
    } else if code == 11 {
        CompletionKind::Unit
    } else if code == 12 {
        CompletionKind::Value
    } else if code == 13 {
        CompletionKind::Enum
    } else if code == 14 {
        CompletionKind::Keyword
    } else if code == 15 {
        CompletionKind::Snippet
    } else if code == 16 {
        CompletionKind::Color
    } else if code == 17 {
        CompletionKind::File
    } else if code == 18 {
        CompletionKind::Reference
    } else if code == 19 {
        CompletionKind::Folder
    } else if code == 20 {
        CompletionKind::EnumMember
    } else if code == 21 {
        CompletionKind::Constant
    } else if code == 22 {
        CompletionKind::Struct
    } else if code == 23 {
        CompletionKind::Event
    } else if code == 24 {
        CompletionKind::Operator
    } else if code == 25 {
        CompletionKind::TypeParameter
    } else {
        CompletionKind::Text
    }
}

/// The number the language server protocol gives kind `k` in its
/// `CompletionItemKind` table, which lists the kinds from `Text` (1) to
/// `TypeParameter` (25) in the order they are declared here; the protocol
/// has no number for macros.
pub open spec fn protocol_code(k: CompletionKind) -> int {
    match k {
        CompletionKind::Text => 1,
        CompletionKind::Method => 2,
        CompletionKind::Function => 3,
        CompletionKind::Constructor => 4,
        CompletionKind::Field => 5,
        CompletionKind::Variable => 6,
        CompletionKind::Class => 7,
        CompletionKind::Interface => 8,
        CompletionKind::Module => 9,
        CompletionKind::Property => 10,
        CompletionKind::Unit => 11,
        CompletionKind::Value => 12,
        CompletionKind::Enum => 13,
        CompletionKind::Keyword => 14,
        CompletionKind::Snippet => 15,
        CompletionKind::Color => 16,
        CompletionKind::File => 17,
        CompletionKind::Reference => 18,
        CompletionKind::Folder => 19,
        CompletionKind::EnumMember => 20,
        CompletionKind::Constant => 21,
        CompletionKind::Struct => 22,
        CompletionKind::Event => 23,
        CompletionKind::Operator => 24,
        CompletionKind::TypeParameter => 25,
        CompletionKind::Macro => 0,
    }
}

/// Reading a code follows the protocol's numbering: each code from 1 to
/// 25 gives the kind the protocol numbers so, every kind the protocol
/// numbers is read back from its number, and any other code counts as
/// text.
pub proof fn law_kind_codes_follow_protocol()
    ensures
        forall|c: i32| 1 <= c <= 25 ==> protocol_code(#[trigger] kind_of_code(c)) == c,
        forall|k: CompletionKind|
            k != CompletionKind::Macro ==> kind_of_code(#[trigger] protocol_code(k) as i32) == k,
        forall|c: i32| !(1 <= c <= 25) ==> #[trigger] kind_of_code(c) == CompletionKind::Text,
{
}

/// The display name of a kind.
pub open spec fn kind_name(k: CompletionKind) -> Seq<char> {
    match k {
        CompletionKind::Text => "テキスト"@,
        CompletionKind::Method => "メソッド"@,
        CompletionKind::Function => "関数"@,
        CompletionKind::Constructor => "コンストラクタ"@,
        CompletionKind::Field => "フィールド"@,
        CompletionKind::Variable => "変数"@,
        CompletionKind::Class => "クラス"@,
        CompletionKind::Interface => "インターフェース"@,
        CompletionKind::Module => "モジュール"@,
        CompletionKind::Property => "プロパティ"@,
        CompletionKind::Unit => "ユニット"@,
        CompletionKind::Value => "値"@,
        CompletionKind::Enum => "列挙型"@,
        CompletionKind::Keyword => "キーワード"@,
        CompletionKind::Snippet => "スニペット"@,
        CompletionKind::Color => "色"@,
        CompletionKind::File => "ファイル"@,
        CompletionKind::Reference => "参照"@,
        CompletionKind::Folder => "フォルダ"@,
        CompletionKind::EnumMember => "列挙型メンバ"@,
        CompletionKind::Constant => "定数"@,
        CompletionKind::Struct => "構造体"@,
        CompletionKind::Event => "イベント"@,
        CompletionKind::Operator => "演算子"@,
        CompletionKind::TypeParameter => "型パラメータ"@,
        CompletionKind::Macro => "マクロ"@,
    }
}

/// The icon of a kind.
pub open spec fn kind_icon(k: CompletionKind) -> Seq<char> {
    match k {
        CompletionKind::Text => "📝"@,
        CompletionKind::Method => "🔧"@,
        CompletionKind::Function => "ƒ"@,
        CompletionKind::Constructor => "🏗️"@,
        CompletionKind::Field => "📦"@,
        CompletionKind::Variable => "𝑥"@,
        CompletionKind::Class => "📘"@,
        CompletionKind::Interface => "📗"@,
        CompletionKind::Module => "📁"@,
        CompletionKind::Property => "🔑"@,
        CompletionKind::Unit => "📐"@,
        CompletionKind::Value => "💎"@,
        CompletionKind::Enum => "📋"@,
        CompletionKind::Keyword => "🔤"@,
        CompletionKind::Snippet => "✂️"@,
        CompletionKind::Color => "🎨"@,
        CompletionKind::File => "📄"@,
        CompletionKind::Reference => "🔗"@,
        CompletionKind::Folder => "📂"@,
        CompletionKind::EnumMember => "📌"@,
        CompletionKind::Constant => "🔒"@,
        CompletionKind::Struct => "🧱"@,
        CompletionKind::Event => "⚡"@,
        CompletionKind::Operator => "➕"@,
        CompletionKind::TypeParameter => "🅃"@,
        CompletionKind::Macro => "🔮"@,
    }
}

impl CompletionKind {
    /// The kind named by the protocol's numeric kind `code`.
    pub fn from_code(code: i32) -> (k: CompletionKind)
        ensures
            k == kind_of_code(code),
    {
        if code == 1 {
            CompletionKind::Text
        } else if code == 2 {
            CompletionKind::Method
        } else if code == 3 {
            CompletionKind::Function
        } else if code == 4 {
            CompletionKind::Constructor
        } else if code == 5 {
            CompletionKind::Field
        } else if code == 6 {
            CompletionKind::Variable
        } else if code == 7 {
            CompletionKind::Class
        } else if code == 8 {
            CompletionKind::Interface
        } else if code == 9 {
            CompletionKind::Module
        } else if code == 10 {
            CompletionKind::Property
        } else if code == 11 {
            CompletionKind::Unit
        } else if code == 12 {
            CompletionKind::Value
        } else if code == 13 {
            CompletionKind::Enum
        } else if code == 14 {
            CompletionKind::Keyword
        } else if code == 15 {
            CompletionKind::Snippet
        } else if code == 16 {
            CompletionKind::Color
        } else if code == 17 {
            CompletionKind::File
        } else if code == 18 {
            CompletionKind::Reference
        } else if code == 19 {
            CompletionKind::Folder
        } else if code == 20 {
            CompletionKind::EnumMember
        } else if code == 21 {
            CompletionKind::Constant
        } else if code == 22 {
            CompletionKind::Struct
        } else if code == 23 {
            CompletionKind::Event
        } else if code == 24 {
            CompletionKind::Operator
        } else if code == 25 {
            CompletionKind::TypeParameter
        } else {
            CompletionKind::Text
        }
    }

    /// The display name.
    pub fn display_name(&self) -> (s: &'static str)
        ensures
            s@ == kind_name(*self),
    {
        match self {
            CompletionKind::Text => "テキスト",
            CompletionKind::Method => "メソッド",
            CompletionKind::Function => "関数",
            CompletionKind::Constructor => "コンストラクタ",
            CompletionKind::Field => "フィールド",
            CompletionKind::Variable => "変数",
            CompletionKind::Class => "クラス",
            CompletionKind::Interface => "インターフェース",
            CompletionKind::Module => "モジュール",
            CompletionKind::Property => "プロパティ",
            CompletionKind::Unit => "ユニット",
            CompletionKind::Value => "値",
            CompletionKind::Enum => "列挙型",
            CompletionKind::Keyword => "キーワード",
            CompletionKind::Snippet => "スニペット",
            CompletionKind::Color => "色",
            CompletionKind::File => "ファイル",
            CompletionKind::Reference => "参照",
            CompletionKind::Folder => "フォルダ",
            CompletionKind::EnumMember => "列挙型メンバ",
            CompletionKind::Constant => "定数",
            CompletionKind::Struct => "構造体",
            CompletionKind::Event => "イベント",
            CompletionKind::Operator => "演算子",
            CompletionKind::TypeParameter => "型パラメータ",
            CompletionKind::Macro => "マクロ",
        }
    }

    /// The icon.
    pub fn icon(&self) -> (s: &'static str)
        ensures
            s@ == kind_icon(*self),
    {
        match self {
            CompletionKind::Text => "📝",
            CompletionKind::Method => "🔧",
            CompletionKind::Function => "ƒ",
            CompletionKind::Constructor => "🏗️",
            CompletionKind::Field => "📦",
            CompletionKind::Variable => "𝑥",
            CompletionKind::Class => "📘",
            CompletionKind::Interface => "📗",
            CompletionKind::Module => "📁",
            CompletionKind::Property => "🔑",
            CompletionKind::Unit => "📐",
            CompletionKind::Value => "💎",
            CompletionKind::Enum => "📋",
            CompletionKind::Keyword => "🔤",
            CompletionKind::Snippet => "✂️",
            CompletionKind::Color => "🎨",
            CompletionKind::File => "📄",
            CompletionKind::Reference => "🔗",
            CompletionKind::Folder => "📂",
            CompletionKind::EnumMember => "📌",
            CompletionKind::Constant => "🔒",
            CompletionKind::Struct => "🧱",
            CompletionKind::Event => "⚡",
            CompletionKind::Operator => "➕",
            CompletionKind::TypeParameter => "🅃",
            CompletionKind::Macro => "🔮",
        }
    }
}


/// A completion item.
#[derive(Debug, Clone)]
pub struct CompletionItem {
    /// Label shown in the list.
    pub label: String,
    /// Kind.
    pub kind: CompletionKind,
    /// Detail, such as a signature.
    pub detail: Option<String>,
    /// Documentation.
    pub documentation: Option<String>,
    /// Text to insert instead of the label.
    pub insert_text: Option<String>,
    /// Text to filter by instead of the label.
    pub filter_text: Option<String>,
    /// Text to sort by instead of the label.
    pub sort_text: Option<String>,
}

/// `o`'s text, or `fallback` when it has none.
pub open spec fn text_or(o: Option<String>, fallback: Seq<char>) -> Seq<char> {
    match o {
        Some(s) => s@,
        None => fallback,
    }
}

/// The one-line form of an item: icon, label and, when there is one,
/// " - " and the detail.
pub open spec fn displayed(it: CompletionItem) -> Seq<char> {
    kind_icon(it.kind) + " "@ + it.label@ + match it.detail {
        Some(d) => " - "@ + d@,
        None => Seq::empty(),
    }
}

impl CompletionItem {
    /// An item with only a label and a kind.
    pub fn new(label: &str, kind: CompletionKind) -> (it: CompletionItem)
        ensures
            it.label@ == label@,
            it.kind == kind,
            it.detail is None,
            it.documentation is None,
            it.insert_text is None,
            it.filter_text is None,
            it.sort_text is None,
    {
        CompletionItem {
            label: label.to_owned(),
            kind,
            detail: None,
            documentation: None,
            insert_text: None,
            filter_text: None,
            sort_text: None,
        }
    }

    /// An item from the parts of a protocol completion item: a missing
    /// kind counts as text, and a missing insert text is taken from the
    /// item's text edit.
    pub fn from_lsp_parts(
        label: String,
        kind: Option<CompletionKind>,
        detail: Option<String>,
        documentation: Option<String>,
        insert_text: Option<String>,
        edit_text: Option<String>,
        filter_text: Option<String>,
        sort_text: Option<String>,
    ) -> (it: CompletionItem)
        ensures
            it.label == label,
            it.kind == match kind {
                Some(k) => k,
                None => CompletionKind::Text,
            },
            it.detail == detail,
            it.documentation == documentation,
            it.insert_text == match insert_text {
                Some(t) => Some(t),
                None => edit_text,
            },
            it.filter_text == filter_text,
            it.sort_text == sort_text,
    {
        let kind = match kind {
            Some(k) => k,
            None => CompletionKind::Text,
        };
        let insert_text = match insert_text {
            Some(t) => Some(t),
            None => edit_text,
        };
        CompletionItem { label, kind, detail, documentation, insert_text, filter_text, sort_text }
    }

    /// This item with `detail` set.
    pub fn with_detail(self, detail: &str) -> (it: CompletionItem)
        ensures
            it.detail matches Some(d) && d@ == detail@,
            it == (CompletionItem { detail: it.detail, ..self }),
    {
        let mut it = self;
        it.detail = Some(detail.to_owned());
        it
    }

    /// This item with `doc` as documentation.
    pub fn with_documentation(self, doc: &str) -> (it: CompletionItem)
        ensures
            it.documentation matches Some(d) && d@ == doc@,
            it == (CompletionItem { documentation: it.documentation, ..self }),
    {
        let mut it = self;
        it.documentation = Some(doc.to_owned());
        it
    }

    /// This item with `text` as insert text.
    pub fn with_insert_text(self, text: &str) -> (it: CompletionItem)
        ensures
            it.insert_text matches Some(t) && t@ == text@,
            it == (CompletionItem { insert_text: it.insert_text, ..self }),
    {
        let mut it = self;
        it.insert_text = Some(text.to_owned());
        it
    }

    /// The text to insert: the insert text, or else the label.
    pub fn text_to_insert(&self) -> (s: &str)
        ensures
            s@ == text_or(self.insert_text, self.label@),
    {
        match &self.insert_text {
            Some(t) => t.as_str(),
            None => self.label.as_str(),
        }
    }

    /// The one-line form, see [`displayed`].
    pub fn formatted_display(&self) -> (s: String)
        ensures
            s@ == displayed(*self),
    {
        let mut s = self.kind.icon().to_owned();
        s.append(" ");
        s.append(self.label.as_str());
        match &self.detail {
            Some(d) => {
                s.append(" - ");
                s.append(d.as_str());
            },
            None => {},
        }
        proof {
            let it = *self;
            assert(s@ =~= displayed(it));
        }
        s
    }
}

/// Holds of the items whose filter text (or label) holds `q`, ignoring case.
pub open spec fn matches_query(q: Seq<char>) -> spec_fn(CompletionItem) -> bool {
    |it: CompletionItem| occurs_in(lowercase(text_or(it.filter_text, it.label@)), q)
}

/// The text an item is filtered by: its filter text, or else its label.
pub open spec fn filter_key(it: CompletionItem) -> Seq<char> {
    text_or(it.filter_text, it.label@)
}

/// `s` with the ASCII capitals `A` to `Z` made small.
pub open spec fn ascii_lowered(s: Seq<char>) -> Seq<char> {
    s.map_values(|c: char| ascii_lower(c))
}

/// Holds of the items whose filter text (or label), with its ASCII
/// capitals made small, holds `q`.
pub open spec fn matches_ascii_query(q: Seq<char>) -> spec_fn(CompletionItem) -> bool {
    |it: CompletionItem| occurs_in(ascii_lowered(filter_key(it)), q)
}

/// The query and every item's filter text (or label) are ASCII.
pub open spec fn all_ascii_keys(items: Seq<CompletionItem>) -> bool {
    forall|i: int| 0 <= i < items.len() ==> all_ascii(filter_key(#[trigger] items[i]))
}

/// The sort key of an item: its sort text, or else its label.
pub open spec fn sort_key(it: CompletionItem) -> Key {
    (0u8, text_or(it.sort_text, it.label@))
}

/// The sort keys of `items`.
pub open spec fn sort_keys(items: Seq<CompletionItem>) -> Seq<Key> {
    items.map_values(|it: CompletionItem| sort_key(it))
}

/// The items of `items` at the indices in `order`.
pub open spec fn picked(items: Seq<CompletionItem>, order: Seq<usize>) -> Seq<CompletionItem> {
    order.map_values(|i: usize| items[i as int])
}

/// The references of `r`, dereferenced.
pub open spec fn items_of(r: Seq<&CompletionItem>) -> Seq<CompletionItem> {
    r.map_values(|it: &CompletionItem| *it)
}

/// A list of completion items.
#[derive(Debug, Clone)]
pub struct CompletionList {
    items: Vec<CompletionItem>,
    /// Whether more items may come with further typing.
    pub is_incomplete: bool,
}

impl CompletionList {
    /// The items, in the order they were added.
    pub closed spec fn view(&self) -> Seq<CompletionItem> {
        self.items@
    }

    /// Whether more items may come with further typing.
    pub closed spec fn incomplete(&self) -> bool {
        self.is_incomplete
    }

    /// An empty, complete list.
    pub fn new() -> (l: CompletionList)
        ensures
            l@ == Seq::<CompletionItem>::empty(),
            !l.incomplete(),
    {
        CompletionList { items: Vec::new(), is_incomplete: false }
    }

    /// A list of `items`.
    pub fn from_items(items: Vec<CompletionItem>, is_incomplete: bool) -> (l: CompletionList)
        ensures
            l@ == items@,
            l.incomplete() == is_incomplete,
    {
        CompletionList { items, is_incomplete }
    }

    /// Adds an item at the end.
    pub fn add(&mut self, item: CompletionItem)
        ensures
            final(self)@ == old(self)@.push(item),
            final(self).incomplete() == old(self).incomplete(),
    {
        self.items.push(item);
    }

    /// All items.
    pub fn items(&self) -> (s: &[CompletionItem])
        ensures
            s@ == self@,
    {
        self.items.as_slice()
    }

    /// The number of items.
    pub fn len(&self) -> (n: usize)
        ensures
            n == self@.len(),
    {
        self.items.len()
    }

    /// Whether there are no items.
    pub fn is_empty(&self) -> (b: bool)
        ensures
            b == (self@.len() == 0),
    {
        self.items.is_empty()
    }

    /// The items whose filter text (or label) contains `query`, ignoring
    /// case, in order.
    pub fn filter(&self, query: &str) -> (r: Vec<&CompletionItem>)
        ensures
            items_of(r@) == self@.filter(matches_query(lowercase(query@))),
            all_ascii(query@) && all_ascii_keys(self@) ==> items_of(r@) == self@.filter(
                matches_ascii_query(ascii_lowered(query@)),
            ),
    {
        let query_lower = to_lowercase(query);
        let ghost keep = matches_query(lowercase(query@));
        let ghost keep2 = matches_ascii_query(ascii_lowered(query@));
        let ghost ascii = all_ascii(query@) && all_ascii_keys(self@);
        let mut r: Vec<&CompletionItem> = Vec::new();
        let n = self.items.len();
        let mut i: usize = 0;
        while i < n
            invariant
                n == self@.len(),
                i <= n,
                query_lower@ == lowercase(query@),
                keep == matches_query(lowercase(query@)),
                items_of(r@) == self@.take(i as int).filter(keep),
                keep2 == matches_ascii_query(ascii_lowered(query@)),
                ascii == (all_ascii(query@) && all_ascii_keys(self@)),
                ascii ==> query_lower@ == ascii_lowered(query@),
                ascii ==> items_of(r@) == self@.take(i as int).filter(keep2),
            decreases n - i,
        {
            let it = &self.items[i];
            let key = match &it.filter_text {
                Some(f) => f.as_str(),
                None => it.label.as_str(),
            };
            let key_lower = to_lowercase(key);
            let ghost before = r@;
            if contains_str(key_lower.as_str(), query_lower.as_str()) {
                r.push(it);
                assert(items_of(r@) =~= items_of(before).push(*it));
            }
            proof {
                reveal_with_fuel(Seq::<CompletionItem>::filter, 1);
                assert(self@.take(i + 1).drop_last() =~= self@.take(i as int));
                assert(*it == self@[i as int]);
                let t1 = self@.take(i + 1);
                assert(t1.last() == self@[i as int]);
                assert(t1.filter(keep) == if keep(t1.last()) {
                    t1.drop_last().filter(keep).push(t1.last())
                } else {
                    t1.drop_last().filter(keep)
                });
                assert(t1.filter(keep2) == if keep2(t1.last()) {
                    t1.drop_last().filter(keep2).push(t1.last())
                } else {
                    t1.drop_last().filter(keep2)
                });
                if ascii {
                    assert(key@ == filter_key(self@[i as int]));
                    assert(all_ascii(key@));
                    assert(key_lower@ == ascii_lowered(key@));
                    assert(keep(*it) == keep2(*it));
                }
            }
            i = i + 1;
        }
        assert(self@.take(n as int) =~= self@);
        r
    }

    /// The items ordered by sort text (or label), stably.
    pub fn sorted(&self) -> (r: Vec<&CompletionItem>)
        ensures
            exists|order: Seq<usize>|
                #[trigger] stably_sorted(sort_keys(self@), order) && items_of(r@) == picked(
                    self@,
                    order,
                ),
    {
        let n = self.items.len();
        let mut keys: Vec<SortKey> = Vec::new();
        let mut i: usize = 0;
        while i < n
            invariant
                n == self@.len(),
                i <= n,
                keys@.len() == i,
                forall|j: int| 0 <= j < i ==> #[trigger] keys@[j]@ == sort_key(self@[j]),
            decreases n - i,
        {
            let it = &self.items[i];
            let text = match &it.sort_text {
                Some(t) => chars_of(t.as_str()),
                None => chars_of(it.label.as_str()),
            };
            keys.push(SortKey { rank: 0, text });
            i = i + 1;
        }
        let order = stable_order(&keys);
        let ghost kv = sort_keys(self@);
        assert(key_views(keys@) =~= kv);
        let mut r: Vec<&CompletionItem> = Vec::new();
        let mut k: usize = 0;
        while k < n
            invariant
                n == self@.len(),
                order@.len() == n,
                forall|a: int| 0 <= a < n ==> #[trigger] order@[a] < n,
                k <= n,
                r@.len() == k,
                forall|a: int| 0 <= a < k ==> *#[trigger] r@[a] == self@[order@[a] as int],
            decreases n - k,
        {
            r.push(&self.items[order[k]]);
            k = k + 1;
        }
        assert(items_of(r@) =~= picked(self@, order@));
        assert(stably_sorted(sort_keys(self@), order@));
        r
    }
}

impl Default for CompletionList {
    fn default() -> (l: CompletionList)
        ensures
            l@ == Seq::<CompletionItem>::empty(),
            !l.incomplete(),
    {
        CompletionList::new()
    }
}

} // verus!
