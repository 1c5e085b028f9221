//! The built-in search plan: categories and their keyword lists.

use vstd::prelude::*;

verus! {

/// One search category: an identifier, a display name, and the keywords
/// queried for it.
#[derive(Debug, Clone)]
pub struct Category {
    pub id: String,
    pub name: String,
    pub keywords: Vec<String>,
}

/// Progress snapshot of one platform's collection run.
#[derive(Debug, Clone)]
pub struct CollectorProgress {
    pub platform: String,
    pub status: String,
    pub total_collected: i64,
    pub current_category_id: String,
    pub current_keyword_index: usize,
    pub current_page: usize,
    pub completed_categories: Vec<String>,
    pub error_message: Option<String>,
}

/// The views of a keyword list.
pub open spec fn word_views(v: Seq<String>) -> Seq<Seq<char>> {
    v.map_values(|s: String| s@)
}

/// One category from its parts.
fn make_category(id: &str, name: &str, keywords: Vec<String>) -> (r: Category)
    ensures
        r.id@ == id@,
        r.name@ == name@,
        r.keywords == keywords,
{
    Category { id: id.to_owned(), name: name.to_owned(), keywords }
}

/// A keyword list from literals.
fn kw2(a: &str, b: &str) -> (r: Vec<String>)
    ensures
        r@.len() == 2,
        r@[0]@ == a@ && r@[1]@ == b@,
{
    let mut v: Vec<String> = Vec::new();
    v.push(a.to_owned());
    v.push(b.to_owned());
    v
}

/// Appends one keyword.
fn kw_push(v: &mut Vec<String>, w: &str)
    ensures
        final(v)@.len() == old(v)@.len() + 1,
        forall|i: int| 0 <= i < old(v)@.len() ==> final(v)@[i] == old(v)@[i],
        final(v)@.last()@ == w@,
{
    v.push(w.to_owned());
}

/// The default plan: sixteen categories covering settlements, commerce,
/// public services, infrastructure and landmarks, each pinned to its
/// identifier, display name and keyword list.
#[verifier::rlimit(100)]
pub fn default_categories() -> (r: Vec<Category>)
    ensures
        r@.len() == 16,
        forall|i: int| 0 <= i < r@.len() ==> (#[trigger] r@[i]).keywords@.len() > 0,
        r@[0].id@ == "residential"@ && r@[0].name@ == "住宅小区"@ && word_views(
            r@[0].keywords@,
        ) == seq!["小区"@, "花园"@, "家园"@, "公寓"@, "名苑"@, "雅苑"@, "新村"@, "嘉园"@, "华府"@, "名邸"@],
        r@[1].id@ == "commercial"@ && r@[1].name@ == "商业楼盘"@ && word_views(
            r@[1].keywords@,
        ) == seq!["广场"@, "中心"@, "大厦"@, "商厦"@, "写字楼"@, "商城"@, "购物中心"@],
        r@[2].id@ == "school"@ && r@[2].name@ == "学校"@ && word_views(
            r@[2].keywords@,
        ) == seq!["学校"@, "小学"@, "中学"@, "高中"@, "大学"@, "学院"@, "幼儿园"@, "实验学校"@],
        r@[3].id@ == "hospital"@ && r@[3].name@ == "医疗"@ && word_views(
            r@[3].keywords@,
        ) == seq!["医院"@, "诊所"@, "卫生院"@, "社区卫生"@, "药店"@, "卫生室"@, "门诊"@],
        r@[4].id@ == "government"@ && r@[4].name@ == "政府"@ && word_views(
            r@[4].keywords@,
        ) == seq!["政府"@, "派出所"@, "公安局"@, "法院"@, "街道办"@, "村委会"@, "居委会"@],
        r@[5].id@ == "transport"@ && r@[5].name@ == "交通"@ && word_views(
            r@[5].keywords@,
        ) == seq!["汽车站"@, "火车站"@, "公交站"@, "停车场"@, "加油站"@, "高速出口"@],
        r@[6].id@ == "business"@ && r@[6].name@ == "商业服务"@ && word_views(
            r@[6].keywords@,
        ) == seq!["超市"@, "商场"@, "市场"@, "银行"@, "酒店"@, "宾馆"@, "餐厅"@, "饭店"@],
        r@[7].id@ == "entertainment"@ && r@[7].name@ == "休闲娱乐"@ && word_views(
            r@[7].keywords@,
        ) == seq!["电影院"@, "KTV"@, "游乐场"@, "健身房"@, "网吧"@, "咖啡厅"@],
        r@[8].id@ == "nature"@ && r@[8].name@ == "自然地貌"@ && word_views(
            r@[8].keywords@,
        ) == seq!["湖"@, "河"@, "公园"@, "景区"@, "森林"@, "湿地"@, "水库"@],
        r@[9].id@ == "admin"@ && r@[9].name@ == "行政区划"@ && word_views(
            r@[9].keywords@,
        ) == seq!["镇"@, "乡"@, "村"@, "社区"@, "街道"@, "开发区"@],
        r@[10].id@ == "landmark"@ && r@[10].name@ == "地标建筑"@ && word_views(
            r@[10].keywords@,
        ) == seq!["塔"@, "桥"@, "广场"@, "体育馆"@, "图书馆"@, "文化馆"@, "博物馆"@],
        r@[11].id@ == "industrial"@ && r@[11].name@ == "工业园区"@ && word_views(
            r@[11].keywords@,
        ) == seq!["工业园"@, "产业园"@, "开发区"@, "厂区"@, "仓库"@, "物流园"@],
        r@[12].id@ == "agriculture"@ && r@[12].name@ == "农业设施"@ && word_views(
            r@[12].keywords@,
        ) == seq!["农场"@, "果园"@, "大棚"@, "养殖场"@, "农业基地"@, "合作社"@],
        r@[13].id@ == "municipal"@ && r@[13].name@ == "市政设施"@ && word_views(
            r@[13].keywords@,
        ) == seq!["变电站"@, "水厂"@, "污水处理"@, "垃圾站"@, "消防站"@],
        r@[14].id@ == "public_service"@ && r@[14].name@ == "公共服务"@ && word_views(
            r@[14].keywords@,
        ) == seq!["社区服务中心"@, "便民中心"@, "邮局"@, "快递站"@],
        r@[15].id@ == "religious"@ && r@[15].name@ == "宗教场所"@ && word_views(
            r@[15].keywords@,
        ) == seq!["寺庙"@, "教堂"@, "道观"@, "祠堂"@],
{
    let mut r: Vec<Category> = Vec::new();

    let mut kws = kw2("小区", "花园");
    kw_push(&mut kws, "家园");
    kw_push(&mut kws, "公寓");
    kw_push(&mut kws, "名苑");
    kw_push(&mut kws, "雅苑");
    kw_push(&mut kws, "新村");
    kw_push(&mut kws, "嘉园");
    kw_push(&mut kws, "华府");
    kw_push(&mut kws, "名邸");
    assert(word_views(kws@) =~= seq!["小区"@, "花园"@, "家园"@, "公寓"@, "名苑"@, "雅苑"@, "新村"@, "嘉园"@, "华府"@, "名邸"@]);
    r.push(make_category("residential", "住宅小区", kws));

    let mut kws = kw2("广场", "中心");
    kw_push(&mut kws, "大厦");
    kw_push(&mut kws, "商厦");
    kw_push(&mut kws, "写字楼");
    kw_push(&mut kws, "商城");
    kw_push(&mut kws, "购物中心");
    assert(word_views(kws@) =~= seq!["广场"@, "中心"@, "大厦"@, "商厦"@, "写字楼"@, "商城"@, "购物中心"@]);
    r.push(make_category("commercial", "商业楼盘", kws));

    let mut kws = kw2("学校", "小学");
    kw_push(&mut kws, "中学");
    kw_push(&mut kws, "高中");
    kw_push(&mut kws, "大学");
    kw_push(&mut kws, "学院");
    kw_push(&mut kws, "幼儿园");
    kw_push(&mut kws, "实验学校");
    assert(word_views(kws@) =~= seq!["学校"@, "小学"@, "中学"@, "高中"@, "大学"@, "学院"@, "幼儿园"@, "实验学校"@]);
    r.push(make_category("school", "学校", kws));

    let mut kws = kw2("医院", "诊所");
    kw_push(&mut kws, "卫生院");
    kw_push(&mut kws, "社区卫生");
    kw_push(&mut kws, "药店");
    kw_push(&mut kws, "卫生室");
    kw_push(&mut kws, "门诊");
    assert(word_views(kws@) =~= seq!["医院"@, "诊所"@, "卫生院"@, "社区卫生"@, "药店"@, "卫生室"@, "门诊"@]);
    r.push(make_category("hospital", "医疗", kws));

    let mut kws = kw2("政府", "派出所");
    kw_push(&mut kws, "公安局");
    kw_push(&mut kws, "法院");
    kw_push(&mut kws, "街道办");
    kw_push(&mut kws, "村委会");
    kw_push(&mut kws, "居委会");
    assert(word_views(kws@) =~= seq!["政府"@, "派出所"@, "公安局"@, "法院"@, "街道办"@, "村委会"@, "居委会"@]);
    r.push(make_category("government", "政府", kws));

    let mut kws = kw2("汽车站", "火车站");
    kw_push(&mut kws, "公交站");
    kw_push(&mut kws, "停车场");
    kw_push(&mut kws, "加油站");
    kw_push(&mut kws, "高速出口");
    assert(word_views(kws@) =~= seq!["汽车站"@, "火车站"@, "公交站"@, "停车场"@, "加油站"@, "高速出口"@]);
    r.push(make_category("transport", "交通", kws));

    let mut kws = kw2("超市", "商场");
    kw_push(&mut kws, "市场");
    kw_push(&mut kws, "银行");
    kw_push(&mut kws, "酒店");
    kw_push(&mut kws, "宾馆");
    kw_push(&mut kws, "餐厅");
    kw_push(&mut kws, "饭店");
    assert(word_views(kws@) =~= seq!["超市"@, "商场"@, "市场"@, "银行"@, "酒店"@, "宾馆"@, "餐厅"@, "饭店"@]);
    r.push(make_category("business", "商业服务", kws));

    let mut kws = kw2("电影院", "KTV");
    kw_push(&mut kws, "游乐场");
    kw_push(&mut kws, "健身房");
    kw_push(&mut kws, "网吧");
    kw_push(&mut kws, "咖啡厅");
    assert(word_views(kws@) =~= seq!["电影院"@, "KTV"@, "游乐场"@, "健身房"@, "网吧"@, "咖啡厅"@]);
    r.push(make_category("entertainment", "休闲娱乐", kws));

    let mut kws = kw2("湖", "河");
    kw_push(&mut kws, "公园");
    kw_push(&mut kws, "景区");
    kw_push(&mut kws, "森林");
    kw_push(&mut kws, "湿地");
    kw_push(&mut kws, "水库");
    assert(word_views(kws@) =~= seq!["湖"@, "河"@, "公园"@, "景区"@, "森林"@, "湿地"@, "水库"@]);
    r.push(make_category("nature", "自然地貌", kws));

    let mut kws = kw2("镇", "乡");
    kw_push(&mut kws, "村");
    kw_push(&mut kws, "社区");
    kw_push(&mut kws, "街道");
    kw_push(&mut kws, "开发区");
    assert(word_views(kws@) =~= seq!["镇"@, "乡"@, "村"@, "社区"@, "街道"@, "开发区"@]);
    r.push(make_category("admin", "行政区划", kws));

    let mut kws = kw2("塔", "桥");
    kw_push(&mut kws, "广场");
    kw_push(&mut kws, "体育馆");
    kw_push(&mut kws, "图书馆");
    kw_push(&mut kws, "文化馆");
    kw_push(&mut kws, "博物馆");
    assert(word_views(kws@) =~= seq!["塔"@, "桥"@, "广场"@, "体育馆"@, "图书馆"@, "文化馆"@, "博物馆"@]);
    r.push(make_category("landmark", "地标建筑", kws));

    let mut kws = kw2("工业园", "产业园");
    kw_push(&mut kws, "开发区");
    kw_push(&mut kws, "厂区");
    kw_push(&mut kws, "仓库");
    kw_push(&mut kws, "物流园");
    assert(word_views(kws@) =~= seq!["工业园"@, "产业园"@, "开发区"@, "厂区"@, "仓库"@, "物流园"@]);
    r.push(make_category("industrial", "工业园区", kws));

    let mut kws = kw2("农场", "果园");
    kw_push(&mut kws, "大棚");
    kw_push(&mut kws, "养殖场");
    kw_push(&mut kws, "农业基地");
    kw_push(&mut kws, "合作社");
    assert(word_views(kws@) =~= seq!["农场"@, "果园"@, "大棚"@, "养殖场"@, "农业基地"@, "合作社"@]);
    r.push(make_category("agriculture", "农业设施", kws));

    let mut kws = kw2("变电站", "水厂");
    kw_push(&mut kws, "污水处理");
    kw_push(&mut kws, "垃圾站");
    kw_push(&mut kws, "消防站");
    assert(word_views(kws@) =~= seq!["变电站"@, "水厂"@, "污水处理"@, "垃圾站"@, "消防站"@]);
    r.push(make_category("municipal", "市政设施", kws));

    let mut kws = kw2("社区服务中心", "便民中心");
    kw_push(&mut kws, "邮局");
    kw_push(&mut kws, "快递站");
    assert(word_views(kws@) =~= seq!["社区服务中心"@, "便民中心"@, "邮局"@, "快递站"@]);
    r.push(make_category("public_service", "公共服务", kws));

    let mut kws = kw2("寺庙", "教堂");
    kw_push(&mut kws, "道观");
    kw_push(&mut kws, "祠堂");
    assert(word_views(kws@) =~= seq!["寺庙"@, "教堂"@, "道观"@, "祠堂"@]);
    r.push(make_category("religious", "宗教场所", kws));

    r
}

} // verus!
