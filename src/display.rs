use vstd::prelude::*;

verus! {

/// How hot a reading runs, from which the presentation picks its colour.
#[derive(Clone, Copy, Debug, PartialEq, Eq, Structural)]
pub enum Heat {
    Low,
    Medium,
    High,
}

/// The heat band of a value below `medium` (low), below `high` (medium),
/// or at least `high`.
pub open spec fn band(value: nat, medium: nat, high: nat) -> Heat {
    if value < medium {
        Heat::Low
    } else if value < high {
        Heat::Medium
    } else {
        Heat::High
    }
}

/// CPU usage (hundredths of a percent): low under 50%, high from 75%.
pub fn usage_level(usage: u32) -> (r: Heat)
    ensures
        r == band(usage as nat, 5000, 7500),
{
    if usage < 5000 {
        Heat::Low
    } else if usage < 7500 {
        Heat::Medium
    } else {
        Heat::High
    }
}

/// Accelerator utilization (percent): low under 60%, high from 85%.
pub fn gpu_usage_level(usage: u32) -> (r: Heat)
    ensures
        r == band(usage as nat, 60, 85),
{
    if usage < 60 {
        Heat::Low
    } else if usage < 85 {
        Heat::Medium
    } else {
        Heat::High
    }
}

/// Temperature (degrees Celsius): low under 60, high from 80.
pub fn temp_level(temp: u32) -> (r: Heat)
    ensures
        r == band(temp as nat, 60, 80),
{
    if temp < 60 {
        Heat::Low
    } else if temp < 80 {
        Heat::Medium
    } else {
        Heat::High
    }
}

/// A process's CPU usage in the list (hundredths of a percent): low under
/// 60%, high from 85%.
pub fn process_cpu_level(usage: u32) -> (r: Heat)
    ensures
        r == band(usage as nat, 6000, 8500),
{
    if usage < 6000 {
        Heat::Low
    } else if usage < 8500 {
        Heat::Medium
    } else {
        Heat::High
    }
}

/// A process's CPU usage in the details pane (hundredths of a percent):
/// medium above 50%, high above 75%.
pub fn detail_cpu_level(usage: u32) -> (r: Heat)
    ensures
        r == band(usage as nat, 5001, 7501),
{
    if usage > 7500 {
        Heat::High
    } else if usage > 5000 {
        Heat::Medium
    } else {
        Heat::Low
    }
}

/// The scroll offset that keeps the selected row within a window of
/// `visible` rows, moving the window as little as possible from `current`.
pub open spec fn scroll_offset_spec(selected: Option<usize>, current: nat, visible: nat) -> nat {
    match selected {
        Some(s) => if s < current {
            s as nat
        } else if s >= current + visible {
            (s - visible + 1) as nat
        } else {
            current
        },
        None => 0,
    }
}

pub fn scroll_offset_for(selected: Option<usize>, current: usize, visible: usize) -> (r: usize)
    requires
        visible > 0,
    ensures
        r == scroll_offset_spec(selected, current as nat, visible as nat),
        selected matches Some(s) ==> r <= s && s < r + visible,
{
    match selected {
        Some(s) => {
            if s < current {
                s
            } else if s - current >= visible {
                s - visible + 1
            } else {
                current
            }
        },
        None => 0,
    }
}

/// Columns and rows of the per-core grid: at most four columns, and as many
/// rows as the cores need.
pub fn core_grid(core_count: usize) -> (r: (usize, usize))
    requires
        core_count > 0,
    ensures
        r.0 == if core_count < 4 { core_count } else { 4 },
        r.1 == (core_count + r.0 - 1) / (r.0 as int),
        r.1 * r.0 >= core_count,
        (r.1 - 1) * r.0 < core_count,
{
    let cols: usize = if core_count < 4 { core_count } else { 4 };
    let rows: usize = (core_count - 1) / cols + 1;
    proof {
        assert(rows == (core_count + cols - 1) / (cols as int)) by (nonlinear_arith)
            requires
                rows == (core_count - 1) / (cols as int) + 1,
                cols > 0,
        ;
        assert(rows * cols >= core_count && (rows - 1) * cols < core_count) by (nonlinear_arith)
            requires
                rows == (core_count - 1) / (cols as int) + 1,
                cols > 0,
                core_count > 0,
        ;
    }
    (cols, rows)
}

/// How many cores row `row` of the grid holds.
pub fn cores_in_row(core_count: usize, cols: usize, row: usize) -> (r: usize)
    requires
        cols > 0,
        row * cols <= core_count,
    ensures
        r == if core_count - row * cols < cols { core_count - row * cols } else { cols as int },
{
    let left = core_count - row * cols;
    if left < cols {
        left
    } else {
        cols
    }
}

/// Spaces between the hints and the right-hand summary of the status bar:
/// enough to push the summary to the right edge, or three when the bar is
/// too narrow.
pub fn status_spacing(width: usize, left_len: usize, right_len: usize) -> (r: usize)
    ensures
        left_len + right_len + 3 < width ==> r == width - left_len - right_len,
        left_len + right_len + 3 >= width ==> r == 3,
{
    if left_len < width && right_len < width - left_len && width - left_len - right_len > 3 {
        width - left_len - right_len
    } else {
        3
    }
}

} // verus!
