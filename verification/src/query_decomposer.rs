//! Splitting a research query into sub-queries: the prompt that asks the model for a
//! plan, and the reading of the plan it returns.
use crate::json::{json_parsed, parse_json, string_elems, JsonValue};
use crate::text::string_views;
use crate::tools::{str_or, u64_or};
use crate::types::QueryConstraints;
use vstd::prelude::*;

verus! {

/// Splitting queries into sub-queries.
pub struct QueryDecomposer;

/// The system prompt that asks for a search plan.
pub const DECOMPOSE_SYSTEM: &'static str = r#"你是一个学术文献检索专家。你的任务是将用户的复杂研究查询分解为多个可独立检索的子查询。

输出必须是严格的JSON格式，包含以下字段：
- sub_queries: 子查询数组，每个包含 query(英文关键词)、dimension(methodology/application/theory/dataset/survey之一)、weight(0-1重要性)
- year_range: 建议的年份范围 [起始年, 终止年]，如果查询中没有明确年份，默认不限制
- venues: 建议的发表 venue 筛选，如无则空数组
- methodology_required: 必须涉及的方法名，如无则空数组

规则：
1. 生成3-5个子查询，覆盖不同维度
2. 所有 query 必须是英文、适合学术搜索引擎的关键词
3. 不要添加超出用户原始查询范围的约束
4. 年份默认不限制，除非用户明确要求"#;

/// The error of a plan reply that is not JSON.
pub const PLAN_PARSE_ERROR: &'static str = "Failed to parse LLM JSON response";

/// A sub-query of a plan: English keywords, the dimension it covers, and its weight
/// as the reply gave it (a number, read as a float by the caller, 0.8 where it is not
/// a number).
#[derive(Debug)]
pub struct SubQuery {
    pub query: String,
    pub dimension: String,
    pub weight: JsonValue,
}

/// A search plan: the query, its sub-queries and its constraints.
#[derive(Debug)]
pub struct QueryPlan {
    pub original: String,
    pub sub_queries: Vec<SubQuery>,
    pub constraints: QueryConstraints,
}

/// Whether `s` is the sub-query that the reply element `v` describes: `query` by
/// default empty, `dimension` by default "methodology", and `weight` as given.
pub open spec fn sub_query_ok(s: SubQuery, v: JsonValue) -> bool {
    &&& s.query@ == str_or(v.at("query"@), ""@)
    &&& s.dimension@ == str_or(v.at("dimension"@), "methodology"@)
    &&& s.weight == v.at("weight"@)
}

/// The year range of a plan: the first two numbers of a `year_range` array of exactly
/// two elements (0 where an element is not a `u64`, cut to 32 bits as `as u32` does).
pub open spec fn year_range_of(reply: JsonValue) -> Option<(u32, u32)> {
    match reply.at("year_range"@).array_of() {
        Some(a) => if a.len() == 2 {
            Some((u64_or(a[0], 0) as u32, u64_or(a[1], 0) as u32))
        } else {
            None
        },
        None => None,
    }
}

/// The strings of the array member `key` of a reply (none where it is not an array).
pub open spec fn strings_at(reply: JsonValue, key: Seq<char>) -> Seq<Seq<char>> {
    match reply.at(key).array_of() {
        Some(a) => string_elems(a),
        None => seq![],
    }
}

/// Whether `plan` is the plan that the reply `reply` describes for `query`.
pub open spec fn plan_ok(plan: QueryPlan, reply: JsonValue, query: Seq<char>) -> bool {
    let items = match reply.at("sub_queries"@).array_of() {
        Some(a) => a,
        None => seq![],
    };
    &&& plan.original@ == query
    &&& plan.sub_queries@.len() == items.len()
    &&& forall|i: int| 0 <= i < items.len() ==> sub_query_ok(#[trigger] plan.sub_queries@[i], items[i])
    &&& plan.constraints.year_range == year_range_of(reply)
    &&& string_views(plan.constraints.venues@) == strings_at(reply, "venues"@)
    &&& string_views(plan.constraints.methodology_required@) == strings_at(reply, "methodology_required"@)
}

/// `value[key]`, taken out of the value.
fn take_member(v: JsonValue, key: &str) -> (res: JsonValue)
    ensures
        res == v.at(key@),
{
    match v {
        JsonValue::Object(es) => {
            let ghost all = es@;
            let mut rest = es;
            let ghost mut k: int = 0;
            assert(all.skip(0) =~= all);
            while rest.len() > 0
                invariant
                    0 <= k <= all.len(),
                    rest@ == all.skip(k),
                    v.object_of() == Some(all),
                    crate::json::member(all, key@) == crate::json::member(all.skip(k), key@),
                decreases rest.len(),
            {
                assert(all.skip(k).drop_first() =~= all.skip(k + 1));
                let ghost first = rest@[0];
                let (name, x) = rest.remove(0);
                assert(first == all.skip(k)[0]);
                if crate::text::str_eq(name.as_str(), key) {
                    assert(crate::json::member(all.skip(k), key@) == Some(x));
                    return x;
                }
                proof {
                    k = k + 1;
                }
            }
            JsonValue::Null
        },
        _ => JsonValue::Null,
    }
}

impl QueryDecomposer {
    /// Reads the model's plan for `query`; fails with "Failed to parse LLM JSON
    /// response" exactly where the reply is not JSON.
    pub fn read_plan(content: &str, query: &str) -> (res: Result<QueryPlan, String>)
        ensures
            match json_parsed(content@) {
                Some(j) => res matches Ok(plan) && plan_ok(plan, j, query@),
                None => res matches Err(e) && e@ == PLAN_PARSE_ERROR@,
            },
    {
        let json = match parse_json(content) {
            Ok(v) => v,
            Err(_) => return Err(crate::text::owned(PLAN_PARSE_ERROR)),
        };
        let ghost j = json;
        let year_range: Option<(u32, u32)> = match json.get("year_range").as_array() {
            Some(a) => if a.len() == 2 {
                let y0: u32 = match a[0].as_u64() {
                    Some(n) => n as u32,
                    None => 0,
                };
                let y1: u32 = match a[1].as_u64() {
                    Some(n) => n as u32,
                    None => 0,
                };
                Some((y0, y1))
            } else {
                None
            },
            None => None,
        };
        let venues = match json.get("venues").as_array() {
            Some(a) => crate::json::collect_strings(a),
            None => {
                let v: Vec<String> = Vec::new();
                assert(string_views(v@) =~= Seq::<Seq<char>>::empty());
                v
            },
        };
        let methodology_required = match json.get("methodology_required").as_array() {
            Some(a) => crate::json::collect_strings(a),
            None => {
                let v: Vec<String> = Vec::new();
                assert(string_views(v@) =~= Seq::<Seq<char>>::empty());
                v
            },
        };
        let items = take_member(json, "sub_queries");
        let mut sub_queries: Vec<SubQuery> = Vec::new();
        match items {
            JsonValue::Array(arr) => {
                let ghost all = arr@;
                let mut rest = arr;
                let ghost mut k: int = 0;
                assert(all.skip(0) =~= all);
                while rest.len() > 0
                    invariant
                        0 <= k <= all.len(),
                        rest@ == all.skip(k),
                        sub_queries@.len() == k,
                        forall|i: int| 0 <= i < k ==> sub_query_ok(#[trigger] sub_queries@[i], all[i]),
                    decreases rest.len(),
                {
                    assert(all.skip(k).drop_first() =~= all.skip(k + 1));
                    let sq = rest.remove(0);
                    assert(sq == all[k]);
                    let q = match sq.get("query").as_str() {
                        Some(s) => crate::text::owned(s),
                        None => crate::text::owned(""),
                    };
                    let d = match sq.get("dimension").as_str() {
                        Some(s) => crate::text::owned(s),
                        None => crate::text::owned("methodology"),
                    };
                    let w = take_member(sq, "weight");
                    sub_queries.push(SubQuery { query: q, dimension: d, weight: w });
                    proof {
                        k = k + 1;
                    }
                }
            },
            _ => {},
        }
        let plan = QueryPlan {
            original: crate::text::owned(query),
            sub_queries,
            constraints: QueryConstraints { year_range, venues, methodology_required },
        };
        Ok(plan)
    }
}

} // verus!
