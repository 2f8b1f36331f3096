//! Two languages, and the strings the toolkit itself has to say.
//!
//! The toolkit ships the words it puts on screen without being asked; the
//! application ships everything else. Every message exists in both
//! languages, so a locale can never show a key where a sentence should be.

use vstd::prelude::*;
use crate::strings::{ascii_lower_char, chars_eq_str, chars_of, lower};

verus! {

/// The languages this release ships.
#[derive(Clone, Copy, Debug, PartialEq, Eq, Hash)]
pub enum Locale {
    English,
    Chinese,
}

/// Which way the writing goes.
#[derive(Clone, Copy, Debug, PartialEq, Eq)]
pub enum Direction {
    LeftToRight,
    RightToLeft,
}

impl Direction {
    /// The value for an element's `dir` attribute.
    pub fn attribute(self) -> (r: &'static str)
        ensures
            r@ == (match self {
                Direction::LeftToRight => "ltr"@,
                Direction::RightToLeft => "rtl"@,
            }),
    {
        match self {
            Direction::LeftToRight => "ltr",
            Direction::RightToLeft => "rtl",
        }
    }
}

impl Default for Locale {
    fn default() -> (r: Locale)
        ensures
            r == Locale::English,
    {
        Locale::English
    }
}

/// The language subtag of a tag: everything before the first `-` or `_`.
pub open spec fn language_subtag(tag: Seq<char>) -> Seq<char>
    decreases tag.len(),
{
    if tag.len() == 0 {
        Seq::empty()
    } else if tag[0] == '-' || tag[0] == '_' {
        Seq::empty()
    } else {
        seq![tag[0]] + language_subtag(tag.drop_first())
    }
}

/// The locale a tag names: decided by its language subtag, without regard
/// to case.
pub open spec fn locale_of_tag(tag: Seq<char>) -> Option<Locale> {
    let language = lower(language_subtag(tag));
    if language == "en"@ {
        Some(Locale::English)
    } else if language == "zh"@ {
        Some(Locale::Chinese)
    } else {
        None
    }
}

/// The first of `tags` that names a locale, or English when none does.
pub open spec fn best_locale(tags: Seq<Seq<char>>) -> Locale
    decreases tags.len(),
{
    if tags.len() == 0 {
        Locale::English
    } else {
        match locale_of_tag(tags[0]) {
            Some(locale) => locale,
            None => best_locale(tags.drop_first()),
        }
    }
}

proof fn lemma_subtag_stops(tag: Seq<char>, i: int)
    requires
        0 <= i <= tag.len(),
        forall|j: int| 0 <= j < i ==> tag[j] != '-' && tag[j] != '_',
        i == tag.len() || tag[i] == '-' || tag[i] == '_',
    ensures
        language_subtag(tag) == tag.subrange(0, i),
    decreases i,
{
    if i == 0 {
        assert(tag.subrange(0, 0) =~= Seq::<char>::empty());
    } else {
        lemma_subtag_stops(tag.drop_first(), i - 1);
        assert(seq![tag[0]] + tag.drop_first().subrange(0, i - 1) =~= tag.subrange(0, i));
    }
}

impl Locale {
    /// The BCP 47 tag, which is what `Intl` and the `lang` attribute want.
    pub fn tag(self) -> (r: &'static str)
        ensures
            r@ == (match self {
                Locale::English => "en"@,
                Locale::Chinese => "zh-CN"@,
            }),
    {
        match self {
            Locale::English => "en",
            Locale::Chinese => "zh-CN",
        }
    }

    /// Neither language here is written right to left.
    pub fn direction(self) -> (r: Direction)
        ensures
            r == Direction::LeftToRight,
    {
        match self {
            Locale::English | Locale::Chinese => Direction::LeftToRight,
        }
    }

    /// The locale a tag names, or `None`. Matching is on the language
    /// subtag, so `zh`, `zh-CN` and `zh-Hans-CN` are all Chinese.
    pub fn from_tag(tag: &str) -> (r: Option<Locale>)
        ensures
            r == locale_of_tag(tag@),
    {
        let cs = chars_of(tag);
        let mut language: Vec<char> = Vec::new();
        let mut i: usize = 0;
        while i < cs.len() && cs[i] != '-' && cs[i] != '_'
            invariant
                cs@ == tag@,
                i <= cs@.len(),
                forall|j: int| 0 <= j < i ==> tag@[j] != '-' && tag@[j] != '_',
                language@ == lower(tag@.subrange(0, i as int)),
            decreases cs@.len() - i,
        {
            language.push(ascii_lower_char(cs[i]));
            i = i + 1;
            assert(language@ =~= lower(tag@.subrange(0, i as int)));
        }
        proof {
            lemma_subtag_stops(tag@, i as int);
        }
        if chars_eq_str(language.as_slice(), "en") {
            Some(Locale::English)
        } else if chars_eq_str(language.as_slice(), "zh") {
            Some(Locale::Chinese)
        } else {
            None
        }
    }

    /// The first of `tags` this toolkit has, falling back to English.
    pub fn best_of(tags: &[&str]) -> (r: Locale)
        ensures
            r == best_locale(tags@.map_values(|t: &str| t@)),
    {
        let ghost all = tags@.map_values(|t: &str| t@);
        let mut i: usize = 0;
        assert(all.subrange(0, all.len() as int) =~= all);
        while i < tags.len()
            invariant
                i <= tags@.len(),
                all == tags@.map_values(|t: &str| t@),
                best_locale(all) == best_locale(all.subrange(i as int, all.len() as int)),
            decreases tags@.len() - i,
        {
            let found = Locale::from_tag(tags[i]);
            let ghost rest = all.subrange(i as int, all.len() as int);
            assert(rest[0] == tags@[i as int]@);
            assert(rest.drop_first() =~= all.subrange(i + 1, all.len() as int));
            if let Some(locale) = found {
                return locale;
            }
            i = i + 1;
        }
        assert(all.subrange(i as int, all.len() as int) =~= Seq::<Seq<char>>::empty());
        Locale::English
    }

    pub fn all() -> (r: [Locale; 2])
        ensures
            r@ == seq![Locale::English, Locale::Chinese],
    {
        let r = [Locale::English, Locale::Chinese];
        assert(r@ =~= seq![Locale::English, Locale::Chinese]);
        r
    }

    /// What this language is called in itself.
    pub fn endonym(self) -> (r: &'static str)
        ensures
            r@ == (match self {
                Locale::English => "English"@,
                Locale::Chinese => "中文"@,
            }),
    {
        match self {
            Locale::English => "English",
            Locale::Chinese => "中文",
        }
    }
}

/// Everything the toolkit says on its own account.
#[derive(Clone, Copy, Debug, PartialEq, Eq, Hash)]
pub enum Message {
    /// A control that offers to try again after a failure.
    Retry,
    /// Dismissing a layer.
    Close,
    /// While something is on its way.
    Loading,
    /// An answer that is "there is nothing", which is not a wait that never ends.
    Empty,
    /// A load that did not arrive.
    LoadFailed,
    /// A command that is visible and cannot run.
    Unavailable,
    /// A field the application would not accept.
    Invalid,
    /// A form that is being saved.
    Saving,
    /// Work that would be lost by leaving.
    UnsavedChanges,
    /// A file the import would not read because of its size.
    FileTooLarge,
    /// A file the import would not read because of what it is.
    FileWrongKind,
    /// A picker that was dismissed.
    NothingChosen,
    /// The clipboard said no, and here is the path that always works.
    ClipboardDenied,
    /// A region that lost its GPU context and is coming back.
    RegionRecovering,
    /// A region that could not start at all.
    RegionFailed,
    /// Text drawn in a font that has no glyph for it.
    MissingGlyph,
    /// The default words on a drop zone.
    DropFileHere,
    /// Taking a status message down before it goes on its own.
    Dismiss,
}

/// What each message says in English.
pub open spec fn english_text(message: Message) -> &'static str {
    match message {
        Message::Retry => "try again",
        Message::Close => "close",
        Message::Loading => "loading\u{2026}",
        Message::Empty => "nothing to show",
        Message::LoadFailed => "that did not load",
        Message::Unavailable => "not available",
        Message::Invalid => "not accepted",
        Message::Saving => "saving\u{2026}",
        Message::UnsavedChanges => "there is unsaved work here",
        Message::FileTooLarge => "that file is too large",
        Message::FileWrongKind => "that is not a kind we read",
        Message::NothingChosen => "nothing was chosen",
        Message::ClipboardDenied => "the browser would not let us copy; the text is selected",
        Message::RegionRecovering => "redrawing",
        Message::RegionFailed => "this view could not start",
        Message::MissingGlyph => "□ (no glyph in this font)",
        Message::DropFileHere => "drop a file here",
        Message::Dismiss => "dismiss this message",
    }
}

/// What each message says in Chinese.
pub open spec fn chinese_text(message: Message) -> &'static str {
    match message {
        Message::Retry => "重试",
        Message::Close => "关闭",
        Message::Loading => "加载中\u{2026}",
        Message::Empty => "没有内容",
        Message::LoadFailed => "没有加载成功",
        Message::Unavailable => "当前不可用",
        Message::Invalid => "未被接受",
        Message::Saving => "保存中\u{2026}",
        Message::UnsavedChanges => "这里有未保存的修改",
        Message::FileTooLarge => "文件太大",
        Message::FileWrongKind => "不是可读取的类型",
        Message::NothingChosen => "没有选择任何文件",
        Message::ClipboardDenied => "浏览器不允许复制；文本已选中",
        Message::RegionRecovering => "正在重绘",
        Message::RegionFailed => "这个视图没有启动",
        Message::MissingGlyph => "□（当前字体没有这个字形）",
        Message::DropFileHere => "把文件拖到这里",
        Message::Dismiss => "关闭这条消息",
    }
}

/// The stable name of each message.
pub open spec fn message_key(message: Message) -> &'static str {
    match message {
        Message::Retry => "retry",
        Message::Close => "close",
        Message::Loading => "loading",
        Message::Empty => "empty",
        Message::LoadFailed => "load-failed",
        Message::Unavailable => "unavailable",
        Message::Invalid => "invalid",
        Message::Saving => "saving",
        Message::UnsavedChanges => "unsaved-changes",
        Message::FileTooLarge => "file-too-large",
        Message::FileWrongKind => "file-wrong-kind",
        Message::NothingChosen => "nothing-chosen",
        Message::ClipboardDenied => "clipboard-denied",
        Message::RegionRecovering => "region-recovering",
        Message::RegionFailed => "region-failed",
        Message::MissingGlyph => "missing-glyph",
        Message::DropFileHere => "drop-file-here",
        Message::Dismiss => "dismiss",
    }
}

/// A message in a locale.
pub open spec fn message_text(message: Message, locale: Locale) -> &'static str {
    match locale {
        Locale::English => english_text(message),
        Locale::Chinese => chinese_text(message),
    }
}

/// Every message, in declaration order.
pub open spec fn all_messages() -> Seq<Message> {
    seq![Message::Retry, Message::Close, Message::Loading, Message::Empty, Message::LoadFailed, Message::Unavailable, Message::Invalid, Message::Saving, Message::UnsavedChanges, Message::FileTooLarge, Message::FileWrongKind, Message::NothingChosen, Message::ClipboardDenied, Message::RegionRecovering, Message::RegionFailed, Message::MissingGlyph, Message::DropFileHere, Message::Dismiss]
}
spec fn english_shape(m: Message) -> (nat, char, char, char) {
    match m {
        Message::Retry => (9, 't', 'r', 'y'),
        Message::Close => (5, 'c', 'l', 'o'),
        Message::Loading => (8, 'l', 'o', 'a'),
        Message::Empty => (15, 'n', 'o', 't'),
        Message::LoadFailed => (17, 't', 'h', 'a'),
        Message::Unavailable => (13, 'n', 'o', 't'),
        Message::Invalid => (12, 'n', 'o', 't'),
        Message::Saving => (7, 's', 'a', 'v'),
        Message::UnsavedChanges => (26, 't', 'h', 'e'),
        Message::FileTooLarge => (22, 't', 'h', 'a'),
        Message::FileWrongKind => (26, 't', 'h', 'a'),
        Message::NothingChosen => (18, 'n', 'o', 't'),
        Message::ClipboardDenied => (55, 't', 'h', 'e'),
        Message::RegionRecovering => (9, 'r', 'e', 'd'),
        Message::RegionFailed => (25, 't', 'h', 'i'),
        Message::MissingGlyph => (25, '□', ' ', '('),
        Message::DropFileHere => (16, 'd', 'r', 'o'),
        Message::Dismiss => (20, 'd', 'i', 's'),
    }
}

proof fn lemma_english_shape(m: Message)
    ensures
        (english_text(m)@.len(), english_text(m)@[0], english_text(m)@[1], english_text(m)@[2]) == english_shape(m),
{
    reveal_strlit("try again");
    reveal_strlit("close");
    reveal_strlit("loading\u{2026}");
    reveal_strlit("nothing to show");
    reveal_strlit("that did not load");
    reveal_strlit("not available");
    reveal_strlit("not accepted");
    reveal_strlit("saving\u{2026}");
    reveal_strlit("there is unsaved work here");
    reveal_strlit("that file is too large");
    reveal_strlit("that is not a kind we read");
    reveal_strlit("nothing was chosen");
    reveal_strlit("the browser would not let us copy; the text is selected");
    reveal_strlit("redrawing");
    reveal_strlit("this view could not start");
    reveal_strlit("□ (no glyph in this font)");
    reveal_strlit("drop a file here");
    reveal_strlit("dismiss this message");
}
spec fn chinese_shape(m: Message) -> (nat, char, char) {
    match m {
        Message::Retry => (2, '重', '试'),
        Message::Close => (2, '关', '闭'),
        Message::Loading => (4, '加', '载'),
        Message::Empty => (4, '没', '有'),
        Message::LoadFailed => (6, '没', '有'),
        Message::Unavailable => (5, '当', '前'),
        Message::Invalid => (4, '未', '被'),
        Message::Saving => (4, '保', '存'),
        Message::UnsavedChanges => (9, '这', '里'),
        Message::FileTooLarge => (4, '文', '件'),
        Message::FileWrongKind => (8, '不', '是'),
        Message::NothingChosen => (8, '没', '有'),
        Message::ClipboardDenied => (14, '浏', '览'),
        Message::RegionRecovering => (4, '正', '在'),
        Message::RegionFailed => (8, '这', '个'),
        Message::MissingGlyph => (13, '□', '（'),
        Message::DropFileHere => (7, '把', '文'),
        Message::Dismiss => (6, '关', '闭'),
    }
}

proof fn lemma_chinese_shape(m: Message)
    ensures
        (chinese_text(m)@.len(), chinese_text(m)@[0], chinese_text(m)@[1]) == chinese_shape(m),
{
    reveal_strlit("重试");
    reveal_strlit("关闭");
    reveal_strlit("加载中\u{2026}");
    reveal_strlit("没有内容");
    reveal_strlit("没有加载成功");
    reveal_strlit("当前不可用");
    reveal_strlit("未被接受");
    reveal_strlit("保存中\u{2026}");
    reveal_strlit("这里有未保存的修改");
    reveal_strlit("文件太大");
    reveal_strlit("不是可读取的类型");
    reveal_strlit("没有选择任何文件");
    reveal_strlit("浏览器不允许复制；文本已选中");
    reveal_strlit("正在重绘");
    reveal_strlit("这个视图没有启动");
    reveal_strlit("□（当前字体没有这个字形）");
    reveal_strlit("把文件拖到这里");
    reveal_strlit("关闭这条消息");
}
spec fn key_shape(m: Message) -> (nat, char, char) {
    match m {
        Message::Retry => (5, 'r', 'e'),
        Message::Close => (5, 'c', 'l'),
        Message::Loading => (7, 'l', 'o'),
        Message::Empty => (5, 'e', 'm'),
        Message::LoadFailed => (11, 'l', 'o'),
        Message::Unavailable => (11, 'u', 'n'),
        Message::Invalid => (7, 'i', 'n'),
        Message::Saving => (6, 's', 'a'),
        Message::UnsavedChanges => (15, 'u', 'n'),
        Message::FileTooLarge => (14, 'f', 'i'),
        Message::FileWrongKind => (15, 'f', 'i'),
        Message::NothingChosen => (14, 'n', 'o'),
        Message::ClipboardDenied => (16, 'c', 'l'),
        Message::RegionRecovering => (17, 'r', 'e'),
        Message::RegionFailed => (13, 'r', 'e'),
        Message::MissingGlyph => (13, 'm', 'i'),
        Message::DropFileHere => (14, 'd', 'r'),
        Message::Dismiss => (7, 'd', 'i'),
    }
}

proof fn lemma_key_shape(m: Message)
    ensures
        (message_key(m)@.len(), message_key(m)@[0], message_key(m)@[1]) == key_shape(m),
{
    reveal_strlit("retry");
    reveal_strlit("close");
    reveal_strlit("loading");
    reveal_strlit("empty");
    reveal_strlit("load-failed");
    reveal_strlit("unavailable");
    reveal_strlit("invalid");
    reveal_strlit("saving");
    reveal_strlit("unsaved-changes");
    reveal_strlit("file-too-large");
    reveal_strlit("file-wrong-kind");
    reveal_strlit("nothing-chosen");
    reveal_strlit("clipboard-denied");
    reveal_strlit("region-recovering");
    reveal_strlit("region-failed");
    reveal_strlit("missing-glyph");
    reveal_strlit("drop-file-here");
    reveal_strlit("dismiss");
}

/// What the message of each stable name says in English.
pub open spec fn english_by_name(name: Seq<char>) -> Seq<char> {
    if name == "retry"@ {
        "try again"@
    } else if name == "close"@ {
        "close"@
    } else if name == "loading"@ {
        "loading\u{2026}"@
    } else if name == "empty"@ {
        "nothing to show"@
    } else if name == "load-failed"@ {
        "that did not load"@
    } else if name == "unavailable"@ {
        "not available"@
    } else if name == "invalid"@ {
        "not accepted"@
    } else if name == "saving"@ {
        "saving\u{2026}"@
    } else if name == "unsaved-changes"@ {
        "there is unsaved work here"@
    } else if name == "file-too-large"@ {
        "that file is too large"@
    } else if name == "file-wrong-kind"@ {
        "that is not a kind we read"@
    } else if name == "nothing-chosen"@ {
        "nothing was chosen"@
    } else if name == "clipboard-denied"@ {
        "the browser would not let us copy; the text is selected"@
    } else if name == "region-recovering"@ {
        "redrawing"@
    } else if name == "region-failed"@ {
        "this view could not start"@
    } else if name == "missing-glyph"@ {
        "□ (no glyph in this font)"@
    } else if name == "drop-file-here"@ {
        "drop a file here"@
    } else if name == "dismiss"@ {
        "dismiss this message"@
    } else {
        Seq::empty()
    }
}

/// What the message of each stable name says in Chinese.
pub open spec fn chinese_by_name(name: Seq<char>) -> Seq<char> {
    if name == "retry"@ {
        "重试"@
    } else if name == "close"@ {
        "关闭"@
    } else if name == "loading"@ {
        "加载中\u{2026}"@
    } else if name == "empty"@ {
        "没有内容"@
    } else if name == "load-failed"@ {
        "没有加载成功"@
    } else if name == "unavailable"@ {
        "当前不可用"@
    } else if name == "invalid"@ {
        "未被接受"@
    } else if name == "saving"@ {
        "保存中\u{2026}"@
    } else if name == "unsaved-changes"@ {
        "这里有未保存的修改"@
    } else if name == "file-too-large"@ {
        "文件太大"@
    } else if name == "file-wrong-kind"@ {
        "不是可读取的类型"@
    } else if name == "nothing-chosen"@ {
        "没有选择任何文件"@
    } else if name == "clipboard-denied"@ {
        "浏览器不允许复制；文本已选中"@
    } else if name == "region-recovering"@ {
        "正在重绘"@
    } else if name == "region-failed"@ {
        "这个视图没有启动"@
    } else if name == "missing-glyph"@ {
        "□（当前字体没有这个字形）"@
    } else if name == "drop-file-here"@ {
        "把文件拖到这里"@
    } else if name == "dismiss"@ {
        "关闭这条消息"@
    } else {
        Seq::empty()
    }
}

/// Each message says what its stable name stands for: the words shown for
/// a message, in either language, are the words its name is given.
#[verifier::spinoff_prover]
#[verifier::rlimit(50)]
pub proof fn law_each_message_says_what_its_name_says(m: Message)
    ensures
        message_text(m, Locale::English)@ == english_by_name(message_key(m)@),
        message_text(m, Locale::Chinese)@ == chinese_by_name(message_key(m)@),
{
    law_every_message_has_a_name_of_its_own(m, Message::Retry);
    assert(message_key(Message::Retry)@ == "retry"@);
    law_every_message_has_a_name_of_its_own(m, Message::Close);
    assert(message_key(Message::Close)@ == "close"@);
    law_every_message_has_a_name_of_its_own(m, Message::Loading);
    assert(message_key(Message::Loading)@ == "loading"@);
    law_every_message_has_a_name_of_its_own(m, Message::Empty);
    assert(message_key(Message::Empty)@ == "empty"@);
    law_every_message_has_a_name_of_its_own(m, Message::LoadFailed);
    assert(message_key(Message::LoadFailed)@ == "load-failed"@);
    law_every_message_has_a_name_of_its_own(m, Message::Unavailable);
    assert(message_key(Message::Unavailable)@ == "unavailable"@);
    law_every_message_has_a_name_of_its_own(m, Message::Invalid);
    assert(message_key(Message::Invalid)@ == "invalid"@);
    law_every_message_has_a_name_of_its_own(m, Message::Saving);
    assert(message_key(Message::Saving)@ == "saving"@);
    law_every_message_has_a_name_of_its_own(m, Message::UnsavedChanges);
    assert(message_key(Message::UnsavedChanges)@ == "unsaved-changes"@);
    law_every_message_has_a_name_of_its_own(m, Message::FileTooLarge);
    assert(message_key(Message::FileTooLarge)@ == "file-too-large"@);
    law_every_message_has_a_name_of_its_own(m, Message::FileWrongKind);
    assert(message_key(Message::FileWrongKind)@ == "file-wrong-kind"@);
    law_every_message_has_a_name_of_its_own(m, Message::NothingChosen);
    assert(message_key(Message::NothingChosen)@ == "nothing-chosen"@);
    law_every_message_has_a_name_of_its_own(m, Message::ClipboardDenied);
    assert(message_key(Message::ClipboardDenied)@ == "clipboard-denied"@);
    law_every_message_has_a_name_of_its_own(m, Message::RegionRecovering);
    assert(message_key(Message::RegionRecovering)@ == "region-recovering"@);
    law_every_message_has_a_name_of_its_own(m, Message::RegionFailed);
    assert(message_key(Message::RegionFailed)@ == "region-failed"@);
    law_every_message_has_a_name_of_its_own(m, Message::MissingGlyph);
    assert(message_key(Message::MissingGlyph)@ == "missing-glyph"@);
    law_every_message_has_a_name_of_its_own(m, Message::DropFileHere);
    assert(message_key(Message::DropFileHere)@ == "drop-file-here"@);
    law_every_message_has_a_name_of_its_own(m, Message::Dismiss);
    assert(message_key(Message::Dismiss)@ == "dismiss"@);

}

/// No message is empty, no two messages of one language read the same, and
/// no message was left in the other language's words.
pub proof fn law_every_message_is_its_own(a: Message, b: Message, locale: Locale)
    ensures
        message_text(a, locale)@.len() > 0,
        a != b ==> message_text(a, locale)@ != message_text(b, locale)@,
        message_text(a, Locale::English)@ != message_text(a, Locale::Chinese)@,
{
    lemma_english_shape(a);
    lemma_english_shape(b);
    lemma_chinese_shape(a);
    lemma_chinese_shape(b);
}

/// Every message has a stable name no other message has.
pub proof fn law_every_message_has_a_name_of_its_own(a: Message, b: Message)
    ensures
        a != b ==> message_key(a)@ != message_key(b)@,
{
    lemma_key_shape(a);
    lemma_key_shape(b);
}

impl Message {
    /// This message in `locale`.
    pub fn text(self, locale: Locale) -> (r: &'static str)
        ensures
            r == message_text(self, locale),
    {
        match locale {
            Locale::English => self.english(),
            Locale::Chinese => self.chinese(),
        }
    }

    /// The English words.
    fn english(self) -> (r: &'static str)
        ensures
            r == english_text(self),
    {
        match self {
            Message::Retry => "try again",
            Message::Close => "close",
            Message::Loading => "loading\u{2026}",
            Message::Empty => "nothing to show",
            Message::LoadFailed => "that did not load",
            Message::Unavailable => "not available",
            Message::Invalid => "not accepted",
            Message::Saving => "saving\u{2026}",
            Message::UnsavedChanges => "there is unsaved work here",
            Message::FileTooLarge => "that file is too large",
            Message::FileWrongKind => "that is not a kind we read",
            Message::NothingChosen => "nothing was chosen",
            Message::ClipboardDenied => "the browser would not let us copy; the text is selected",
            Message::RegionRecovering => "redrawing",
            Message::RegionFailed => "this view could not start",
            Message::MissingGlyph => "□ (no glyph in this font)",
            Message::DropFileHere => "drop a file here",
            Message::Dismiss => "dismiss this message",
        }
    }

    /// The Chinese words.
    fn chinese(self) -> (r: &'static str)
        ensures
            r == chinese_text(self),
    {
        match self {
            Message::Retry => "重试",
            Message::Close => "关闭",
            Message::Loading => "加载中\u{2026}",
            Message::Empty => "没有内容",
            Message::LoadFailed => "没有加载成功",
            Message::Unavailable => "当前不可用",
            Message::Invalid => "未被接受",
            Message::Saving => "保存中\u{2026}",
            Message::UnsavedChanges => "这里有未保存的修改",
            Message::FileTooLarge => "文件太大",
            Message::FileWrongKind => "不是可读取的类型",
            Message::NothingChosen => "没有选择任何文件",
            Message::ClipboardDenied => "浏览器不允许复制；文本已选中",
            Message::RegionRecovering => "正在重绘",
            Message::RegionFailed => "这个视图没有启动",
            Message::MissingGlyph => "□（当前字体没有这个字形）",
            Message::DropFileHere => "把文件拖到这里",
            Message::Dismiss => "关闭这条消息",
        }
    }

    /// A stable name, for a test id and for the catalogue page's table.
    pub fn key(self) -> (r: &'static str)
        ensures
            r == message_key(self),
    {
        match self {
            Message::Retry => "retry",
            Message::Close => "close",
            Message::Loading => "loading",
            Message::Empty => "empty",
            Message::LoadFailed => "load-failed",
            Message::Unavailable => "unavailable",
            Message::Invalid => "invalid",
            Message::Saving => "saving",
            Message::UnsavedChanges => "unsaved-changes",
            Message::FileTooLarge => "file-too-large",
            Message::FileWrongKind => "file-wrong-kind",
            Message::NothingChosen => "nothing-chosen",
            Message::ClipboardDenied => "clipboard-denied",
            Message::RegionRecovering => "region-recovering",
            Message::RegionFailed => "region-failed",
            Message::MissingGlyph => "missing-glyph",
            Message::DropFileHere => "drop-file-here",
            Message::Dismiss => "dismiss",
        }
    }

    /// Every message there is.
    pub fn all() -> (r: [Message; 18])
        ensures
            r@ == all_messages(),
    {
        let r = [Message::Retry, Message::Close, Message::Loading, Message::Empty, Message::LoadFailed, Message::Unavailable, Message::Invalid, Message::Saving, Message::UnsavedChanges, Message::FileTooLarge, Message::FileWrongKind, Message::NothingChosen, Message::ClipboardDenied, Message::RegionRecovering, Message::RegionFailed, Message::MissingGlyph, Message::DropFileHere, Message::Dismiss];
        assert(r@ =~= all_messages());
        r
    }
}

} // verus!
