//! Unicode ranges, marker characters and regional keyword lists used by the
//! script predicates. This is the tunable data of the detector; the logic that
//! reads it lives in the sibling modules.
use vstd::prelude::*;

verus! {

/// Arabic, Arabic Supplement, Arabic Extended-A and both presentation-form blocks.
pub const ARABIC_RANGES: [(char, char); 5] = [
    ('\u{0600}', '\u{06FF}'),
    ('\u{0750}', '\u{077F}'),
    ('\u{08A0}', '\u{08FF}'),
    ('\u{FB50}', '\u{FDFF}'),
    ('\u{FE70}', '\u{FEFF}'),
];

/// CJK unified ideographs (base block, extensions A to H) and compatibility ideographs.
pub const CJK_RANGES: [(char, char); 6] = [
    ('\u{3400}', '\u{4DBF}'),
    ('\u{4E00}', '\u{9FFF}'),
    ('\u{F900}', '\u{FAFF}'),
    ('\u{20000}', '\u{2A6DF}'),
    ('\u{2A700}', '\u{2EBEF}'),
    ('\u{30000}', '\u{323AF}'),
];

/// Cyrillic, Cyrillic Supplement, Extended-A/B/C.
pub const CYRILLIC_RANGES: [(char, char); 5] = [
    ('\u{0400}', '\u{04FF}'),
    ('\u{0500}', '\u{052F}'),
    ('\u{1C80}', '\u{1C8F}'),
    ('\u{2DE0}', '\u{2DFF}'),
    ('\u{A640}', '\u{A69F}'),
];

/// Greek and Coptic, Greek Extended.
pub const GREEK_RANGES: [(char, char); 2] = [('\u{0370}', '\u{03FF}'), ('\u{1F00}', '\u{1FFF}')];

/// Hebrew and the Hebrew presentation forms.
pub const HEBREW_RANGES: [(char, char); 2] = [('\u{0590}', '\u{05FF}'), ('\u{FB1D}', '\u{FB4F}')];

/// Devanagari.
pub const DEVANAGARI_RANGE: (char, char) = ('\u{0900}', '\u{097F}');

/// Devanagari Extended.
pub const DEVANAGARI_EXTENDED_RANGE: (char, char) = ('\u{A8E0}', '\u{A8FF}');

/// Hiragana, Katakana, Katakana Phonetic Extensions and halfwidth Katakana.
pub const JAPANESE_RANGES: [(char, char); 4] = [
    ('\u{3040}', '\u{309F}'),
    ('\u{30A0}', '\u{30FF}'),
    ('\u{31F0}', '\u{31FF}'),
    ('\u{FF66}', '\u{FF9F}'),
];

/// Thai.
pub const THAI_RANGE: (char, char) = ('\u{0E00}', '\u{0E7F}');

/// Latin Extended-B.
pub const LATIN_EXTENDED_RANGE: (char, char) = ('\u{0180}', '\u{024F}');

/// Latin Extended-A.
pub const LATIN_EXTENDED_A_RANGE: (char, char) = ('\u{0100}', '\u{017F}');

/// Letters that only Vietnamese uses among the extended Latin letters.
pub const VIETNAMESE_MARKERS: [char; 8] = ['Ă', 'ă', 'Đ', 'đ', 'Ơ', 'ơ', 'Ư', 'ư'];

/// Latin Extended Additional block of precomposed Vietnamese letters with tone marks.
pub const VIETNAMESE_TONE_RANGE: (char, char) = ('\u{1EA0}', '\u{1EFF}');

/// Letters that distinguish Persian from Arabic.
pub const PERSIAN_MARKERS: [char; 4] = ['پ', 'چ', 'ژ', 'گ'];

/// Letters that distinguish Urdu from Arabic and Persian.
pub const URDU_MARKERS: [char; 9] = ['ٹ', 'ڈ', 'ڑ', 'ں', 'ھ', 'ہ', 'ۃ', 'ے', 'ۓ'];

/// Polish diacritic letters.
pub const POLISH_MARKERS: [char; 18] = [
    'Ą', 'ą', 'Ć', 'ć', 'Ę', 'ę', 'Ł', 'ł', 'Ń', 'ń', 'Ó', 'ó', 'Ś', 'ś', 'Ź', 'ź', 'Ż', 'ż',
];

/// Turkish letters absent from other Latin alphabets.
pub const TURKISH_MARKERS: [char; 6] = ['Ğ', 'ğ', 'İ', 'ı', 'Ş', 'ş'];

/// Cyrillic letters that Ukrainian uses and Russian does not.
pub const UKRAINIAN_MARKERS: [char; 8] = ['Є', 'є', 'І', 'і', 'Ї', 'ї', 'Ґ', 'ґ'];

// The Chinese marker tables below are a reduced, hand-picked set of common
// characters, not the full variant sets of the Unicode Unihan data.

/// Common Simplified Chinese forms whose traditional counterpart differs, leaving
/// out forms that Japanese also writes (Joyo kanji).
pub const SIMPLIFIED_MARKERS: [char; 113] = [
    '这', '们', '个', '说', '时', '对', '为', '么', '发', '过', '动', '现', '经', '还', '问',
    '间', '长', '开', '关', '头', '见', '进', '种', '东', '车', '电', '话', '让', '认', '识',
    '记', '语', '请', '读', '谁', '调', '论', '设', '达', '运', '边', '华', '业', '样', '应',
    '书', '买', '卖', '钱', '银', '错', '铁', '门', '马', '鸟', '鱼', '龙', '飞', '风', '页',
    '题', '顾', '顺', '领', '项', '贵', '费', '贸', '资', '赛', '质', '组', '织', '练', '给',
    '统', '结', '绝', '继', '续', '网', '络', '测', '试', '计', '议', '证', '词', '诉', '该',
    '详', '谈', '谢', '软', '轻', '载', '辆', '输', '办', '务', '劳', '势', '协', '单', '卫',
    '压', '厂', '历', '县', '变', '员', '围', '园',
];

/// Further simplified forms without a Japanese twin, part 1.
pub const SIMPLIFIED_MORE_1: [char; 38] = [
    '订', '讨', '训', '讯', '许', '讲', '诗', '诚', '误', '课', '谓', '谋', '谜', '谎', '谦',
    '谨', '译', '评', '诊', '诞', '询', '诸', '诺', '谊', '讽', '诱', '谱', '谬', '讶', '讼',
    '诀', '诈', '诬', '诵', '诲', '诽', '谅', '针',
];

/// Further simplified forms without a Japanese twin, part 2.
pub const SIMPLIFIED_MORE_2: [char; 38] = [
    '钟', '钢', '钥', '钓', '钉', '铃', '铅', '铜', '铝', '锁', '锅', '锋', '锐', '锦', '键',
    '镇', '镜', '钻', '铺', '链', '销', '锡', '锤', '红', '纪', '约', '级', '纯', '纲', '纳',
    '纵', '纷', '纸', '线', '细', '终', '绍', '绕',
];

/// Further simplified forms without a Japanese twin, part 3.
pub const SIMPLIFIED_MORE_3: [char; 38] = [
    '绘', '绩', '维', '综', '绿', '缘', '编', '缓', '缩', '纬', '绳', '绪', '绸', '缝', '饭',
    '饮', '饱', '饼', '饰', '饿', '馆', '饥', '饶', '财', '责', '贡', '贤', '败', '账', '货',
    '贫', '购', '贯', '贷', '赏', '赔', '赖', '赞',
];

/// Further simplified forms without a Japanese twin, part 4.
pub const SIMPLIFIED_MORE_4: [char; 38] = [
    '贝', '负', '贞', '贺', '贴', '赌', '赠', '轨', '转', '轮', '较', '辅', '辈', '辑', '轰',
    '辖', '辩', '闪', '闭', '闯', '闲', '闷', '闸', '闹', '闻', '阅', '阁', '阐', '阔', '阀',
    '顶', '须', '顽', '顿', '预', '颇', '频', '颗',
];

/// Further simplified forms without a Japanese twin, part 5.
pub const SIMPLIFIED_MORE_5: [char; 38] = [
    '额', '颜', '颁', '颂', '颖', '驱', '驶', '驻', '驾', '验', '骑', '骗', '骚', '骤', '驳',
    '驰', '骄', '骂', '鸡', '鸭', '鸣', '鸿', '鹅', '鹰', '鲁', '鲜', '鲸', '观', '规', '视',
    '览', '觉', '亲', '乐', '习', '乡', '亚', '产',
];

/// Further simplified forms without a Japanese twin, part 6.
pub const SIMPLIFIED_MORE_6: [char; 38] = [
    '亿', '仅', '从', '众', '优', '伤', '伦', '传', '价', '兴', '农', '况', '减', '凤', '则',
    '刚', '创', '剧', '劝', '卢', '卧', '厅', '厉', '厌', '叹', '吗', '吓', '吴', '呜', '响',
    '场', '坏', '块', '坚', '坛', '坝', '坟', '垄',
];

/// Further simplified forms without a Japanese twin, part 7.
pub const SIMPLIFIED_MORE_7: [char; 38] = [
    '夺', '奋', '妇', '妈', '娱', '孙', '宁', '实', '宠', '审', '宪', '寻', '导', '尔', '尘',
    '尝', '层', '岁', '岛', '岭', '币', '师', '帐', '带', '帮', '庆', '库', '庙', '庞', '废',
    '弃', '张', '弯', '弹', '归', '录', '彻', '忆',
];

/// Further simplified forms without a Japanese twin, part 8.
pub const SIMPLIFIED_MORE_8: [char; 38] = [
    '忧', '怀', '态', '总', '恶', '悬', '惊', '惯', '愤', '愿', '戏', '战', '执', '扩', '扫',
    '扬', '扰', '抚', '抢', '护', '报', '拟', '拥', '择', '挤', '挥', '捞', '损', '换', '掷',
    '搅', '摄', '摆', '摇', '敌', '无', '显', '晓',
];

/// Further simplified forms without a Japanese twin, part 9.
pub const SIMPLIFIED_MORE_9: [char; 38] = [
    '暂', '术', '杀', '杂', '权', '杨', '极', '构', '枪', '柜', '标', '栋', '树', '档', '桥',
    '梦', '检', '欢', '歼', '毁', '毕', '气', '汇', '汉', '汤', '沟', '沪', '泽', '洁', '浓',
    '润', '涛', '涨', '渔', '滚', '济', '渐', '满',
];

/// Further simplified forms without a Japanese twin, part 10.
pub const SIMPLIFIED_MORE_10: [char; 38] = [
    '灭', '灵', '灾', '炼', '烂', '烟', '热', '爱', '爷', '牵', '犹', '狮', '猎', '环', '琐',
    '畅', '疗', '疯', '痒', '盖', '盘', '监', '矿', '码', '础', '确', '祸', '离', '积', '稳',
    '穷', '竞', '笔', '签', '简', '粮', '紧', '罗',
];

/// Further simplified forms without a Japanese twin, part 11.
pub const SIMPLIFIED_MORE_11: [char; 28] = [
    '罚', '罢', '职', '联', '聪', '肃', '肠', '肤', '肿', '脏', '脑', '舰', '艰', '艺', '节',
    '苏', '荣', '药', '获', '营', '萧', '蓝', '虑', '虽', '虾', '蚀', '补', '袭',
];

/// Common Traditional Chinese forms whose simplified counterpart differs, leaving
/// out most forms that Japanese also writes (Joyo kanji).
pub const TRADITIONAL_MARKERS: [char; 66] = [
    '這', '們', '說', '對', '為', '麼', '發', '經', '關', '讓', '讀', '邊', '樣', '應', '賣',
    '錢', '鐵', '龍', '賽', '絕', '繼', '續', '證', '輕', '輛', '辦', '勞', '區', '醫', '單',
    '壓', '廠', '歷', '縣', '變', '圍', '圖', '團', '壞', '處', '實', '寬', '歲', '帶', '幫',
    '權', '網', '與', '學', '國', '會', '來', '體', '點', '聽', '號', '萬', '觀', '氣', '覺',
    '歡', '數', '聲', '寶', '戰', '黨',
];

/// Further traditional forms whose Japanese form is simplified differently, part 1.
pub const TRADITIONAL_MORE_1: [char; 29] = [
    '當', '從', '價', '傳', '兒', '兩', '壽', '將', '廣', '彈', '戀', '擔', '擇', '擴', '斷',
    '條', '樂', '樓', '歐', '殘', '滿', '澤', '濟', '燈', '爭', '獨', '畫', '盡', '禮',
];

/// Further traditional forms whose Japanese form is simplified differently, part 2.
pub const TRADITIONAL_MORE_2: [char; 29] = [
    '稱', '穩', '總', '繪', '舊', '藝', '蟲', '裝', '覽', '觸', '譯', '豐', '辭', '釋', '險',
    '隨', '雙', '雜', '雞', '靈', '顯', '驗', '驛', '髮', '鬥', '麥', '齊', '齒', '龜',
];

/// Words that point to North Korean usage.
pub const KO_KP_KEYWORDS: [&'static str; 12] = [
    "조선", "로동", "동무", "평양", "주체", "김일성", "김정일", "김정은", "령도", "선군",
    "인민공화국", "로동당",
];

/// Words that point to South Korean usage.
pub const KO_KR_KEYWORDS: [&'static str; 8] = [
    "대한민국", "서울", "대통령실", "청와대", "국회의원", "국정원", "합동참모본부", "한국",
];

} // verus!
