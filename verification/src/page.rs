//! The visualiser's page.

use crate::capture::NUM_BINS;
use crate::text::{chars_of, push_decimal};
use vstd::prelude::*;
use vstd::string::*;

verus! {

/// Up to the sample rate in the title.
pub const STYLE_AND_TITLE: &'static str = r#"<!DOCTYPE html>
<html><head>
<meta charset="utf-8">
<title>Beacon — Realtime Spectrogram + Room Detection</title>
<style>
  * { margin: 0; padding: 0; box-sizing: border-box; }
  body {
    background: #0a0a0a; color: #ccc;
    font-family: -apple-system, 'SF Mono', 'Menlo', monospace;
    overflow: hidden; height: 100vh;
  }
  #header {
    display: flex; align-items: center; justify-content: space-between;
    padding: 8px 16px; background: #111; border-bottom: 1px solid #222;
    min-height: 44px; position: relative; z-index: 50;
  }
  #header h1 { color: #00ccff; font-size: 14px; font-weight: 600; }
  #controls { display: flex; gap: 8px; align-items: center; flex-wrap: wrap; }
  button {
    background: #222; color: #ccc; border: 1px solid #444; border-radius: 4px;
    padding: 4px 10px; font-size: 11px; font-family: inherit; cursor: pointer;
  }
  button:hover { background: #333; }
  button.active { background: #00ccff22; border-color: #00ccff; color: #00ccff; }
  button.recording { background: #ff440033; border-color: #ff6600; color: #ff6600; animation: pulse 1s infinite; }
  button.detecting { background: #44ff4422; border-color: #44ff44; color: #44ff44; }
  @keyframes pulse { 0%,100% { opacity: 1; } 50% { opacity: 0.6; } }
  .sep { width: 1px; height: 20px; background: #333; }
  [data-tip] { position: relative; display: inline-flex; align-items: center; }
  .tip {
    position: absolute; top: calc(100% + 10px); left: 50%; transform: translateX(-50%);
    background: #1e1e1e; color: #ccc; border: 1px solid #444; border-radius: 6px;
    padding: 10px 14px; font-size: 12px; line-height: 1.6; width: max-content;
    max-width: 280px; white-space: normal; pointer-events: none;
    opacity: 0; visibility: hidden; transition: opacity 0.15s, visibility 0.15s;
    z-index: 200; box-shadow: 0 6px 20px #000a; text-align: left;
  }
  .tip::after {
    content: ''; position: absolute; bottom: 100%; left: 50%; transform: translateX(-50%);
    border: 7px solid transparent; border-bottom-color: #444;
  }
  [data-tip]:hover > .tip { opacity: 1; visibility: visible; }
  #main { display: flex; flex-direction: column; height: calc(100vh - 44px); }
  #spectrogram-container { flex: 1; position: relative; min-height: 0; }
  #spectrogram { width: 100%; height: 100%; display: block; }
  #freq-overlay {
    position: absolute; left: 0; top: 0; bottom: 0; right: 0; pointer-events: none;
  }
  .freq-label {
    position: absolute; left: 4px; color: #888; font-size: 10px;
    transform: translateY(-50%); text-shadow: 0 0 4px #000, 0 0 2px #000;
  }
  .freq-line {
    position: absolute; left: 45px; right: 0; height: 1px; background: #ffffff12;
  }
  .freq-line.ultra { background: #00ccff33; height: 2px; }
  #cursor-info {
    position: absolute; top: 8px; right: 8px; background: #000c;
    padding: 4px 8px; border-radius: 3px; font-size: 11px; color: #aaa;
    pointer-events: none; display: none;
  }
  /* Zone detection overlay */
  #zone-overlay {
    position: absolute; bottom: 12px; left: 50%; transform: translateX(-50%);
    background: #000d; border: 1px solid #333; border-radius: 8px;
    padding: 12px 20px; pointer-events: none;
    min-width: 320px; max-width: 500px; transition: all 0.3s;
  }
  #zone-overlay.detected { border-color: #44ff44; background: #0a1a0dee; }
  #zone-overlay.no-match { border-color: #555; }
  #zone-header {
    display: flex; justify-content: space-between; align-items: baseline;
    margin-bottom: 8px;
  }
  #zone-best { font-size: 18px; font-weight: 700; color: #44ff44; }
  #zone-overlay.no-match #zone-best { color: #555; font-size: 13px; font-weight: 400; }
  #zone-fps { font-size: 10px; color: #555; }
  .zone-bar-row {
    display: flex; align-items: center; gap: 8px; margin: 4px 0;
  }
  .zone-bar-name {
    font-size: 11px; color: #ccc; min-width: 80px; text-align: right;
    white-space: nowrap; overflow: hidden; text-overflow: ellipsis;
  }
  .zone-bar-track {
    flex: 1; height: 16px; background: #1a1a1a; border-radius: 3px;
    overflow: hidden; position: relative;
  }
  .zone-bar-fill {
    height: 100%; border-radius: 3px; transition: width 0.4s ease-out;
    background: linear-gradient(90deg, #225522, #44ff44);
  }
  .zone-bar-fill.best {
    background: linear-gradient(90deg, #225522, #44ff44);
  }
  .zone-bar-fill.other {
    background: linear-gradient(90deg, #222244, #6688cc);
  }
  .zone-bar-pct {
    font-size: 11px; color: #aaa; min-width: 48px; text-align: right;
    font-variant-numeric: tabular-nums;
  }
  .zone-bar-pct.best { color: #44ff44; font-weight: 600; }
  .zone-bar-matches {
    font-size: 9px; color: #555; min-width: 30px;
  }
  #bottom-panel {
    height: 220px; min-height: 220px; border-top: 1px solid #222; display: flex;
  }
  #spectrum-chart { flex: 1; position: relative; }
  #spectrum-canvas { width: 100%; height: 100%; display: block; }
  #peaks-panel {
    width: 200px; padding: 10px 14px; border-left: 1px solid #222;
    overflow-y: auto; font-size: 11px;
  }
  #peaks-panel h3 { color: #ff8800; font-size: 12px; margin-bottom: 6px; }
  .peak-row {
    display: flex; justify-content: space-between; padding: 2px 0;
    border-bottom: 1px solid #1a1a1a;
  }
  .peak-freq { color: #00ccff; }
  .peak-db { color: #ff8800; min-width: 55px; text-align: right; }
  .peak-source { color: #666; font-size: 10px; margin-bottom: 2px; }
  #connection-status { font-size: 10px; padding: 2px 6px; border-radius: 3px; }
  .connected { color: #44ff44; }
  .disconnected { color: #ff4444; }

  /* Room panel — own column */
  #room-panel {
    width: 240px; padding: 10px 14px; border-left: 1px solid #222;
    overflow-y: auto; font-size: 11px;
  }
  #room-panel h3 { color: #44ff44; font-size: 12px; margin-bottom: 6px; }
  .room-capture {
    display: flex; flex-direction: column; gap: 6px; margin-bottom: 8px;
  }
  .room-capture input {
    background: #1a1a1a; border: 1px solid #333; border-radius: 3px;
    color: #ccc; padding: 4px 8px; font-size: 11px; font-family: inherit;
    width: 100%;
  }
  .room-capture input:focus { outline: none; border-color: #00ccff; }
  .room-actions { display: flex; gap: 4px; }
  .room-actions button { flex: 1; font-size: 10px; padding: 4px 6px; }
  .zone-item {
    display: flex; justify-content: space-between; align-items: center;
    padding: 4px 0; border-bottom: 1px solid #1a1a1a;
  }
  .zone-item-name { color: #ccc; font-size: 11px; }
  .zone-item-meta { color: #555; font-size: 9px; }
  .zone-item button {
    background: none; border: none; color: #ff4444; cursor: pointer;
    font-size: 10px; padding: 2px 4px;
  }
  .zone-item button:hover { color: #ff6666; }
  #capture-status {
    font-size: 10px; color: #888; padding: 2px 0;
  }
  #capture-timer {
    font-size: 10px; color: #ff6600; font-weight: 600;
  }
</style>
</head>
<body>

<div id="header">
  <h1>Beacon — "#;

/// Between the sample rate and the device.
pub const DEVICE_LABEL: &'static str = r#"Hz Spectrogram</h1>
  <div id="controls">
    <span style="font-size:10px;color:#44ff44">"#;

/// Between the device and the sample rate.
pub const RATE_LABEL: &'static str = r#"</span>
    <span style="font-size:10px;color:#888">"#;

/// Between the sample rate and the Nyquist frequency.
pub const NYQUIST_LABEL: &'static str = "Hz · ";

/// Between the Nyquist frequency and the resolution.
pub const RESOLUTION_LABEL: &'static str = "Hz Nyquist · ";

/// Between the resolution and the end of the first zoom range.
pub const ULTRA_BUTTON: &'static str = r#"Hz/bin</span>
    <span class="sep"></span>
    <span data-tip><button id="btn-zoom-ultra" class="active">Ultrasonic</button>
      <span class="tip">Zoom to 14–"#;

/// Between the first zoom range and the end of the second.
pub const FULL_BUTTON: &'static str = r#"kHz — the full ultrasonic range.</span></span>
    <span data-tip><button id="btn-zoom-full">Full Range</button>
      <span class="tip">Show all frequencies from 0 to "#;

/// Between the second zoom range and the end of the third.
pub const HIGH_BUTTON: &'static str = r#"kHz.</span></span>
    <span data-tip><button id="btn-zoom-high">24–"#;

/// From the third zoom range to the start of the script.
pub const PANELS: &'static str = r#"kHz</button>
      <span class="tip">Zoom to the browser-invisible range.</span></span>
    <span class="sep"></span>
    <span data-tip><button id="btn-baseline">Capture Baseline</button>
      <span class="tip">Record ~2 seconds of electronic noise, then subtract it.</span></span>
    <span data-tip><button id="btn-clear" disabled>Clear</button>
      <span class="tip">Discard baseline and return to raw view.</span></span>
    <span data-tip><button id="btn-mode">Raw</button>
      <span class="tip"><b>Raw/Subtract/Ratio</b> — click to cycle.</span></span>
    <span class="sep"></span>
    <span data-tip><button id="btn-gain-down">-</button><span class="tip">Decrease display gain.</span></span>
    <span id="gain-display" style="font-size:10px;color:#888;min-width:50px;text-align:center">Gain: 0</span>
    <span data-tip><button id="btn-gain-up">+</button><span class="tip">Increase display gain.</span></span>
    <span data-tip><button id="btn-pause">Pause</button>
      <span class="tip">Freeze the display.</span></span>
    <span id="connection-status" class="disconnected">connecting...</span>
    <span id="baseline-status" style="font-size:10px;color:#555">no baseline</span>
  </div>
</div>

<div id="main">
  <div id="spectrogram-container">
    <canvas id="spectrogram"></canvas>
    <div id="freq-overlay"></div>
    <div id="cursor-info"></div>
    <div id="zone-overlay" class="no-match" style="display:none">
      <div id="zone-header">
        <div id="zone-best">Listening...</div>
        <div id="zone-fps"></div>
      </div>
      <div id="zone-bars"></div>
    </div>
  </div>
  <div id="bottom-panel">
    <div id="spectrum-chart">
      <canvas id="spectrum-canvas"></canvas>
    </div>
    <div id="peaks-panel">
      <h3>Live Peaks</h3>
      <div id="peaks-list"></div>
    </div>
    <div id="room-panel">
      <h3>Room Signatures</h3>
      <div class="room-capture">
        <input id="room-name" type="text" placeholder="Room name (e.g. kitchen)" maxlength="40">
        <div class="room-actions">
          <button id="btn-capture" onclick="toggleCapture()">Record Room</button>
          <button id="btn-save" onclick="saveZone()" disabled>Save</button>
        </div>
        <div id="capture-status"></div>
        <div id="capture-timer"></div>
      </div>
      <div class="room-actions" style="margin-bottom:8px">
        <button id="btn-detect" onclick="toggleDetect()">Start Detecting</button>
      </div>
      <div id="zones-list"></div>
    </div>
  </div>
</div>

<script>
const SAMPLE_RATE = "#;

/// Between the sample rate and the Nyquist frequency in the script.
pub const SCRIPT_NYQUIST: &'static str = r#";
const NYQUIST = "#;

/// Between the Nyquist frequency and the number of bins.
pub const SCRIPT_BINS: &'static str = r#";
const NUM_BINS = "#;

/// Between the number of bins and the resolution.
pub const SCRIPT_RESOLUTION: &'static str = r#";
const FREQ_RES = "#;

/// Between the resolution and the first zoom range of the script.
pub const SCRIPT_SETUP: &'static str = r#";

// State
let paused = false;
let baseline = null;
let baselineAccum = null;
let baselineFrames = 0;
let capturingBaseline = false;
let displayMode = 'raw';
let gainBoost = 0;
const BASELINE_TARGET = 60;

// Zoom
const ZOOM = {
  ultra: [14000, "#;

/// Between the first zoom range of the script and the second.
pub const ZOOM_FULL: &'static str = r#"],
  full:  [0, "#;

/// Between the second zoom range and the third.
pub const ZOOM_HIGH: &'static str = r#"],
  high:  [24000, "#;

/// Between the third zoom range and the initial one.
pub const ZOOM_START: &'static str = r#"],
};
let freqLo = 14000, freqHi = "#;

/// The script: canvases, controls and the baseline.
pub const CONTROLS_SCRIPT: &'static str = r#";

// Canvas
const spectCanvas = document.getElementById('spectrogram');
const spectCtx = spectCanvas.getContext('2d');
const specCanvas = document.getElementById('spectrum-canvas');
const specCtx = specCanvas.getContext('2d');
const freqOverlay = document.getElementById('freq-overlay');
const cursorInfo = document.getElementById('cursor-info');
const peaksList = document.getElementById('peaks-list');
const connStatus = document.getElementById('connection-status');
const baselineStatus = document.getElementById('baseline-status');
const gainDisplay = document.getElementById('gain-display');

// Zone detection elements
const zoneOverlay = document.getElementById('zone-overlay');
const zoneBest = document.getElementById('zone-best');
const zoneFps = document.getElementById('zone-fps');
const zoneBars = document.getElementById('zone-bars');

// Controls
document.getElementById('btn-zoom-ultra').addEventListener('click', () => setZoom('ultra'));
document.getElementById('btn-zoom-full').addEventListener('click', () => setZoom('full'));
document.getElementById('btn-zoom-high').addEventListener('click', () => setZoom('high'));
document.getElementById('btn-baseline').addEventListener('click', startBaseline);
document.getElementById('btn-clear').addEventListener('click', clearBaseline);
document.getElementById('btn-mode').addEventListener('click', cycleMode);
document.getElementById('btn-gain-up').addEventListener('click', () => { gainBoost += 5; updateGain(); });
document.getElementById('btn-gain-down').addEventListener('click', () => { gainBoost -= 5; updateGain(); });
document.getElementById('btn-pause').addEventListener('click', () => {
  paused = !paused;
  document.getElementById('btn-pause').textContent = paused ? 'Resume' : 'Pause';
  document.getElementById('btn-pause').classList.toggle('active', paused);
});

function updateGain() {
  gainBoost = Math.max(-30, Math.min(50, gainBoost));
  gainDisplay.textContent = `Gain: ${gainBoost > 0 ? '+' : ''}${gainBoost}`;
}

function setZoom(preset) {
  [freqLo, freqHi] = ZOOM[preset];
  ['ultra','full','high'].forEach(p => {
    document.getElementById('btn-zoom-' + p).classList.toggle('active', p === preset);
  });
  spectCtx.fillStyle = '#000';
  spectCtx.fillRect(0, 0, spectCanvas.width, spectCanvas.height);
  setupFreqLabels();
}

function cycleMode() {
  const modes = ['raw', 'subtract', 'ratio'];
  let idx = modes.indexOf(displayMode);
  idx = (idx + 1) % modes.length;
  displayMode = modes[idx];
  const btn = document.getElementById('btn-mode');
  btn.textContent = modes[idx].charAt(0).toUpperCase() + modes[idx].slice(1);
  if (modes[idx] !== 'raw' && !baseline) btn.textContent += ' (need baseline)';
}

function startBaseline() {
  baselineAccum = new Float32Array(NUM_BINS);
  baselineFrames = 0;
  capturingBaseline = true;
  document.getElementById('btn-baseline').textContent = 'Capturing...';
  document.getElementById('btn-baseline').classList.add('recording');
}

function finishBaseline() {
  capturingBaseline = false;
  baseline = new Float32Array(NUM_BINS);
  for (let i = 0; i < NUM_BINS; i++) baseline[i] = baselineAccum[i] / baselineFrames;
  document.getElementById('btn-baseline').textContent = 'Capture Baseline';
  document.getElementById('btn-baseline').classList.remove('recording');
  document.getElementById('btn-clear').disabled = false;
  baselineStatus.textContent = `baseline OK (${baselineFrames}f)`;
  baselineStatus.style.color = '#44ff44';
  displayMode = 'subtract';
  document.getElementById('btn-mode').textContent = 'Subtract';
  spectCtx.fillStyle = '#000';
  spectCtx.fillRect(0, 0, spectCanvas.width, spectCanvas.height);
}

function clearBaseline() {
  baseline = null;
  displayMode = 'raw';
  document.getElementById('btn-mode').textContent = 'Raw';
  document.getElementById('btn-clear').disabled = true;
  baselineStatus.textContent = 'no baseline';
  baselineStatus.style.color = '#555';
}

"#;

/// The script: room signatures.
pub const ROOM_SCRIPT: &'static str = r#"// ── Room Signature Capture & Detection ──────────────────────

let isCapturing = false;
let captureStartTime = null;
let captureTimerInterval = null;
let isDetecting = false;
let zoneEventSource = null;

async function toggleCapture() {
  const btn = document.getElementById('btn-capture');
  const status = document.getElementById('capture-status');
  const timer = document.getElementById('capture-timer');

  if (!isCapturing) {
    // Start capture
    const resp = await fetch('/zone/capture/start', { method: 'POST' });
    if (resp.ok) {
      isCapturing = true;
      captureStartTime = Date.now();
      btn.textContent = 'Stop Recording';
      btn.classList.add('recording');
      document.getElementById('btn-save').disabled = true;
      status.textContent = 'Recording room audio...';
      status.style.color = '#ff6600';
      captureTimerInterval = setInterval(() => {
        const secs = ((Date.now() - captureStartTime) / 1000).toFixed(1);
        timer.textContent = secs + 's';
      }, 100);
    }
  } else {
    // Stop capture
    const resp = await fetch('/zone/capture/stop', { method: 'POST' });
    if (resp.ok) {
      const data = await resp.json();
      isCapturing = false;
      clearInterval(captureTimerInterval);
      btn.textContent = 'Record Room';
      btn.classList.remove('recording');
      document.getElementById('btn-save').disabled = false;
      status.textContent = `Captured ${data.duration_secs}s of audio`;
      status.style.color = '#44ff44';
      timer.textContent = '';
    }
  }
}

async function saveZone() {
  const nameInput = document.getElementById('room-name');
  const name = nameInput.value.trim();
  const status = document.getElementById('capture-status');

  if (!name) {
    status.textContent = 'Enter a room name first';
    status.style.color = '#ff4444';
    nameInput.focus();
    return;
  }

  status.textContent = 'Saving...';
  status.style.color = '#888';
  document.getElementById('btn-save').disabled = true;

  const resp = await fetch('/zone/save', {
    method: 'POST',
    headers: { 'Content-Type': 'application/json' },
    body: JSON.stringify({ name })
  });

  const data = await resp.json();
  if (data.error) {
    status.textContent = data.error;
    status.style.color = '#ff4444';
    document.getElementById('btn-save').disabled = false;
  } else {
    status.textContent = `Saved "${name}" (${data.fingerprints} fingerprints)`;
    status.style.color = '#44ff44';
    nameInput.value = '';
    loadZones();
  }
}

async function deleteZone(name) {
  const resp = await fetch('/zone/delete/' + encodeURIComponent(name), { method: 'POST' });
  if (resp.ok) loadZones();
}

async function loadZones() {
  try {
    const resp = await fetch('/zones');
    const data = await resp.json();
    const list = document.getElementById('zones-list');
    if (!data.zones || data.zones.length === 0) {
      list.innerHTML = '<div style="color:#444;font-size:10px;padding:4px 0">No rooms saved yet</div>';
      return;
    }
    list.innerHTML = data.zones.map(z => `
      <div class="zone-item">
        <div>
          <div class="zone-item-name">${z.name}</div>
          <div class="zone-item-meta">${z.fingerprints} fps · ${z.duration_secs}s</div>
        </div>
        <button onclick="deleteZone('${z.name.replace(/'/g, "\\\\'")}')">x</button>
      </div>
    `).join('');
  } catch (e) {
    // DB may not exist yet
  }
}

async function toggleDetect() {
  const btn = document.getElementById('btn-detect');

  if (!isDetecting) {
    const resp = await fetch('/zone/detect/start', { method: 'POST' });
    if (resp.ok) {
      isDetecting = true;
      btn.textContent = 'Stop Detecting';
      btn.classList.add('detecting');
      zoneOverlay.style.display = 'block';
      zoneBest.textContent = 'Listening...';
      zoneFps.textContent = '';
      zoneBars.innerHTML = '';
      zoneOverlay.className = 'no-match';

      // Subscribe to continuous detection events
      zoneEventSource = new EventSource('/zone/events');
      zoneEventSource.onmessage = (ev) => {
        try {
          const data = JSON.parse(ev.data);
          const matches = data.matches || [];

          zoneFps.textContent = `${data.fingerprints || 0} fps`;

          if (matches.length > 0) {
            // Best match
            const best = matches[0];
            const bestPct = (best.confidence * 100).toFixed(1);
            zoneBest.textContent = best.zone;
            zoneOverlay.className = 'detected';

            // Build probability bars for all matches
            let html = '';
            for (let i = 0; i < matches.length; i++) {
              const m = matches[i];
              const pct = (m.confidence * 100).toFixed(1);
              const barWidth = Math.min(100, m.confidence * 100);
              const isBest = i === 0;
              html += `<div class="zone-bar-row">
                <div class="zone-bar-name">${m.zone}</div>
                <div class="zone-bar-track">
                  <div class="zone-bar-fill ${isBest ? 'best' : 'other'}" style="width:${barWidth}%"></div>
                </div>
                <div class="zone-bar-pct ${isBest ? 'best' : ''}">${pct}%</div>
                <div class="zone-bar-matches">${m.match_count}</div>
              </div>`;
            }
            zoneBars.innerHTML = html;
          } else {
            zoneBest.textContent = data.message || 'No match';
            zoneOverlay.className = 'no-match';
            zoneBars.innerHTML = '';
          }
        } catch (e) {}
      };
    }
  } else {
    if (zoneEventSource) { zoneEventSource.close(); zoneEventSource = null; }
    const resp = await fetch('/zone/detect/stop', { method: 'POST' });
    isDetecting = false;
    btn.textContent = 'Start Detecting';
    btn.classList.remove('detecting');
    zoneOverlay.style.display = 'none';
  }
}

// Load zones on startup
loadZones();

"#;

/// The script: labels, colours and incoming frames.
pub const DISPLAY_SCRIPT: &'static str = r#"// ── Freq labels ──
function setupFreqLabels() {
  freqOverlay.innerHTML = '';
  const range = freqHi - freqLo;
  let interval;
  if (range <= 12000) interval = 1000;
  else if (range <= 25000) interval = 2000;
  else interval = 5000;
  const first = Math.ceil(freqLo / interval) * interval;
  for (let f = first; f <= freqHi; f += interval) {
    const pct = ((f - freqLo) / range) * 100;
    const label = document.createElement('div');
    label.className = 'freq-label';
    label.style.bottom = pct + '%';
    label.textContent = (f/1000).toFixed(f % 1000 === 0 ? 0 : 1) + 'k';
    freqOverlay.appendChild(label);
    const line = document.createElement('div');
    line.className = 'freq-line';
    line.style.bottom = pct + '%';
    freqOverlay.appendChild(line);
  }
  if (freqLo < 18000 && freqHi > 18000) {
    const pct = ((18000 - freqLo) / range) * 100;
    const line = document.createElement('div');
    line.className = 'freq-line ultra';
    line.style.bottom = pct + '%';
    freqOverlay.appendChild(line);
  }
}

// Mouse hover
spectCanvas.addEventListener('mousemove', (e) => {
  const rect = spectCanvas.getBoundingClientRect();
  const pct = 1 - ((e.clientY - rect.top) / rect.height);
  const freq = freqLo + pct * (freqHi - freqLo);
  cursorInfo.style.display = 'block';
  cursorInfo.textContent = freq.toFixed(0) + ' Hz (' + (freq/1000).toFixed(1) + ' kHz)';
});
spectCanvas.addEventListener('mouseleave', () => { cursorInfo.style.display = 'none'; });

// Canvas resize
function resizeCanvases() {
  const sr = spectCanvas.parentElement.getBoundingClientRect();
  spectCanvas.width = sr.width;
  spectCanvas.height = sr.height;
  const br = specCanvas.parentElement.getBoundingClientRect();
  specCanvas.width = br.width;
  specCanvas.height = br.height;
}
window.addEventListener('resize', resizeCanvases);
resizeCanvases();
setupFreqLabels();

// Color maps
function heatColor(t) {
  t = Math.max(0, Math.min(1, t));
  let r, g, b;
  if (t < 0.15) { const s=t/0.15; r=0; g=0; b=20+180*s|0; }
  else if (t < 0.35) { const s=(t-0.15)/0.2; r=0; g=160*s|0; b=180; }
  else if (t < 0.55) { const s=(t-0.35)/0.2; r=220*s|0; g=160+95*s|0; b=180*(1-s)|0; }
  else if (t < 0.75) { const s=(t-0.55)/0.2; r=220+35*s|0; g=255; b=60*s|0; }
  else { const s=(t-0.75)/0.25; r=255; g=255; b=60+195*s|0; }
  return (r<<16)|(g<<8)|b;
}

function diffColor(db) {
  let r,g,b;
  if (db < -3) { const t=Math.min(1,Math.abs(db+3)/15); r=8; g=8; b=30+120*t|0; }
  else if (db < 0) { const t=(db+3)/3; r=8+12*t|0; g=8+12*t|0; b=130-100*t|0; }
  else if (db < 6) { const t=db/6; r=220*t|0; g=70*t|0; b=0; }
  else if (db < 15) { const t=(db-6)/9; r=220+35*t|0; g=70+185*t|0; b=20*t|0; }
  else { const t=Math.min(1,(db-15)/15); r=255; g=255; b=20+235*t|0; }
  return (r<<16)|(g<<8)|b;
}

function identifySource(freq) {
  const s = [];
  if (freq > 15000 && freq < 22000) s.push('coil whine');
  if (freq > 18000 && freq < 22500) s.push('SMPS');
  if (freq > 19000 && freq < 26000) s.push('LCD PWM');
  if (freq > 15500 && freq < 16500) s.push('LED driver');
  if (freq > 22000 && freq < 28000) s.push('pest repeller');
  if (freq > 30000 && freq < 45000) s.push('piezo/appliance');
  if (Math.abs(freq - 32768) < 200) s.push('32k crystal');
  if (freq > 25000 && freq < 48000) s.push('structural');
  return s.length ? s.join(' / ') : '';
}

// Base64 decode
function b64decode(str) {
  const bin = atob(str);
  const bytes = new Uint8Array(bin.length);
  for (let i = 0; i < bin.length; i++) bytes[i] = bin.charCodeAt(i);
  return bytes;
}

// ── Data layer: SSE receives frames ──
let latestFrame = null;
let newFrameReady = false;
let frameCount = 0;

function connect() {
  const es = new EventSource('/stream');
  es.onopen = () => {
    connStatus.textContent = 'streaming';
    connStatus.className = 'connected';
  };
  es.onerror = () => {
    connStatus.textContent = 'reconnecting...';
    connStatus.className = 'disconnected';
  };
  let dbData = null;

  es.onmessage = (ev) => {
    const raw = b64decode(ev.data);
    const view = new DataView(raw.buffer);
    const numBins = view.getUint16(0, true);
    if (!dbData || dbData.length !== numBins) dbData = new Float32Array(numBins);
    for (let i = 0; i < numBins; i++) {
      dbData[i] = view.getFloat32(6 + i * 4, true);
    }
    if (capturingBaseline) {
      for (let i = 0; i < numBins; i++) {
        baselineAccum[i] += Math.pow(10, dbData[i] / 20);
      }
      baselineFrames++;
      if (baselineFrames >= BASELINE_TARGET) finishBaseline();
    }
    latestFrame = dbData;
    newFrameReady = true;
  };
}

"#;

/// The script: the waterfall.
pub const WATERFALL_SCRIPT: &'static str = r#"// ── Render loop ──
// Decoupled from SSE: always scroll the waterfall at rAF rate for smooth
// animation. SSE updates latestFrame asynchronously; render uses whatever
// data is current. This prevents jitter from SSE timing mismatches.
function render() {
  requestAnimationFrame(render);
  if (paused || !latestFrame) return;

  const dbData = latestFrame;
  const numBins = dbData.length;

  const binLo = Math.max(0, Math.floor(freqLo / FREQ_RES));
  const binHi = Math.min(numBins - 1, Math.ceil(freqHi / FREQ_RES));
  const numVisible = binHi - binLo + 1;
  const displayDB = new Float32Array(numVisible);

  const isSub = baseline && displayMode === 'subtract';
  const isRatio = baseline && displayMode === 'ratio';
  const isProcessed = isSub || isRatio;

  for (let j = 0; j < numVisible; j++) {
    const i = binLo + j;
    let db;
    if (isSub) {
      const mag = Math.pow(10, dbData[i] / 20);
      const diff = mag - baseline[i];
      db = diff > 1e-15 ? 20 * Math.log10(diff) : -150;
    } else if (isRatio) {
      const mag = Math.pow(10, dbData[i] / 20);
      const ratio = baseline[i] > 1e-15 ? mag / baseline[i] : 1;
      db = 20 * Math.log10(Math.max(ratio, 1e-8));
    } else {
      db = dbData[i];
    }
    displayDB[j] = db + gainBoost;
  }

  // Scrolling spectrogram
  const sw = spectCanvas.width, sh = spectCanvas.height;
  const dbMin = isProcessed ? -15 + gainBoost : -120 + gainBoost;
  const dbMax = isProcessed ? 25 + gainBoost : -25 + gainBoost;
  const dbRange = dbMax - dbMin;

  const shift = 2;
  spectCtx.drawImage(spectCanvas, shift, 0, sw - shift, sh, 0, 0, sw - shift, sh);
  const col = spectCtx.createImageData(shift, sh);
  const px = col.data;
  for (let py = 0; py < sh; py++) {
    const fPct = 1 - (py / sh);
    const j = Math.round(fPct * (numVisible - 1));
    if (j < 0 || j >= numVisible) continue;
    const db = displayDB[j];
    const t = (db - dbMin) / dbRange;
    let rgb;
    if (isProcessed) rgb = diffColor(db - gainBoost);
    else rgb = heatColor(t);
    const r = (rgb>>16)&0xff, g = (rgb>>8)&0xff, b = rgb&0xff;
    for (let sx = 0; sx < shift; sx++) {
      const idx = (py * shift + sx) * 4;
      px[idx] = r; px[idx+1] = g; px[idx+2] = b; px[idx+3] = 255;
    }
  }
  spectCtx.putImageData(col, sw - shift, 0);

"#;

/// The script: the spectrum chart and the peaks, to the end of the page.
pub const SPECTRUM_SCRIPT: &'static str = r#"  // Spectrum chart
  const cw = specCanvas.width, ch = specCanvas.height;
  const margin = { l: 45, r: 10, t: 8, b: 22 };
  const pw = cw - margin.l - margin.r, ph = ch - margin.t - margin.b;
  const cDbMin = isProcessed ? -15 : -120;
  const cDbMax = isProcessed ? 30 : -20;

  const gridKey = `${cw},${ch},${freqLo},${freqHi},${isProcessed}`;
  if (gridKey !== render._gridKey) {
    render._gridKey = gridKey;
    if (!render._gridCanvas) render._gridCanvas = document.createElement('canvas');
    render._gridCanvas.width = cw;
    render._gridCanvas.height = ch;
    const gc = render._gridCanvas.getContext('2d');
    gc.fillStyle = '#0a0a0a';
    gc.fillRect(0, 0, cw, ch);
    gc.strokeStyle = '#1a1a1a'; gc.lineWidth = 0.5;
    gc.fillStyle = '#444'; gc.font = '9px monospace';
    gc.textAlign = 'right';
    const dbStep = isProcessed ? 5 : 10;
    for (let db = cDbMin; db <= cDbMax; db += dbStep) {
      const y = margin.t + ph - ((db - cDbMin) / (cDbMax - cDbMin)) * ph;
      gc.beginPath(); gc.moveTo(margin.l, y); gc.lineTo(cw-margin.r, y); gc.stroke();
      gc.fillText(db.toString(), margin.l - 4, y + 3);
    }
    gc.textAlign = 'center';
    const fRange = freqHi - freqLo;
    let fInt; if (fRange <= 12000) fInt = 1000; else if (fRange <= 25000) fInt = 2000; else fInt = 5000;
    for (let f = Math.ceil(freqLo/fInt)*fInt; f <= freqHi; f += fInt) {
      const x = margin.l + ((f - freqLo) / fRange) * pw;
      gc.strokeStyle = '#1a1a1a'; gc.beginPath();
      gc.moveTo(x, margin.t); gc.lineTo(x, margin.t + ph); gc.stroke();
      gc.fillStyle = '#555';
      gc.fillText((f/1000).toFixed(f%1000===0?0:1)+'k', x, ch - 4);
    }
    if (freqLo < 18000 && freqHi > 18000) {
      const x18 = margin.l + ((18000 - freqLo) / fRange) * pw;
      gc.strokeStyle = '#00ccff33'; gc.lineWidth = 1.5;
      gc.beginPath(); gc.moveTo(x18, margin.t); gc.lineTo(x18, margin.t+ph); gc.stroke();
    }
    if (isProcessed) {
      const y0 = margin.t + ph - ((0 - cDbMin) / (cDbMax - cDbMin)) * ph;
      gc.strokeStyle = '#555'; gc.lineWidth = 1;
      gc.setLineDash([4,4]); gc.beginPath();
      gc.moveTo(margin.l, y0); gc.lineTo(cw-margin.r, y0); gc.stroke();
      gc.setLineDash([]);
    }
  }
  specCtx.drawImage(render._gridCanvas, 0, 0);
  const fRange = freqHi - freqLo;

  // Frequency bars
  const step = Math.max(1, Math.floor(numVisible / pw));
  const barW = Math.max(1, pw / (numVisible / step) - 0.5);
  const yBase = margin.t + ph;
  for (let j = 0; j < numVisible; j += step) {
    const freq = (binLo + j) * FREQ_RES;
    const x = margin.l + ((freq - freqLo) / fRange) * pw;
    const db = Math.max(cDbMin, Math.min(cDbMax, displayDB[j]));
    const t = (db - cDbMin) / (cDbMax - cDbMin);
    const barH = t * ph;
    let r, g, b;
    if (isProcessed) {
      if (db < 0) { r = 40; g = 40; b = 80; }
      else if (db < 10) { const s = db / 10; r = 60 + 195*s|0; g = 40 + 30*s|0; b = 0; }
      else { const s = Math.min(1, (db - 10) / 20); r = 255; g = 70 + 185*s|0; b = 50*s|0; }
    } else {
      if (t < 0.3) { const s = t / 0.3; r = 0; g = 60*s|0; b = 100 + 155*s|0; }
      else if (t < 0.6) { const s = (t-0.3) / 0.3; r = 0; g = 60 + 140*s|0; b = 255 - 55*s|0; }
      else { const s = (t-0.6) / 0.4; r = 200*s|0; g = 200 + 55*s|0; b = 200 - 200*s|0; }
    }
    specCtx.fillStyle = `rgb(${r},${g},${b})`;
    specCtx.fillRect(x, yBase - barH, barW, barH);
  }

  // Peaks
  if (frameCount % 8 === 0) {
    const thresh = isProcessed ? -2 : -80;
    const peaks = [];
    for (let j = 2; j < numVisible - 2; j++) {
      if (displayDB[j] > displayDB[j-1] && displayDB[j] > displayDB[j+1] &&
          displayDB[j] > displayDB[j-2] && displayDB[j] > displayDB[j+2] &&
          displayDB[j] > thresh) {
        peaks.push({ freq: (binLo + j) * FREQ_RES, db: displayDB[j] });
      }
    }
    peaks.sort((a,b) => b.db - a.db);
    let html = '';
    for (const p of peaks.slice(0, 10)) {
      const src = identifySource(p.freq);
      const dbVal = p.db - gainBoost;
      const dbStr = isProcessed ? (dbVal>0?'+':'')+dbVal.toFixed(1)+' dB' : dbVal.toFixed(1)+' dB';
      html += `<div class="peak-row"><span class="peak-freq">${p.freq.toFixed(0)} Hz</span><span class="peak-db">${dbStr}</span></div>`;
      if (src) html += `<div class="peak-source">${src}</div>`;
    }
    if (!peaks.length) html = '<div style="color:#444;padding:10px 0">No peaks above threshold</div>';
    peaksList.innerHTML = html;
  }
  frameCount++;
}

connect();
requestAnimationFrame(render);
</script>
</body></html>"#;

/// Text with `<` and `>` written as entities.
pub open spec fn escaped(s: Seq<char>) -> Seq<char>
    decreases s.len(),
{
    if s.len() == 0 {
        Seq::empty()
    } else if s.last() == '<' {
        escaped(s.drop_last()) + "&lt;"@
    } else if s.last() == '>' {
        escaped(s.drop_last()) + "&gt;"@
    } else {
        escaped(s.drop_last()).push(s.last())
    }
}

/// The page for a sample rate and a device; the two resolutions are the width
/// of a bin in Hz, with one decimal and in full.
pub open spec fn page(
    sample_rate: u32,
    device_name: Seq<char>,
    rounded_resolution: Seq<char>,
    resolution: Seq<char>,
) -> Seq<char> {
    STYLE_AND_TITLE@ + crate::text::decimal(sample_rate as nat) + DEVICE_LABEL@
        + escaped(device_name) + RATE_LABEL@ + crate::text::decimal(sample_rate as nat)
        + NYQUIST_LABEL@ + crate::text::decimal((sample_rate / 2) as nat) + RESOLUTION_LABEL@
        + rounded_resolution + ULTRA_BUTTON@
        + crate::text::decimal((sample_rate / 2 / 1000) as nat) + FULL_BUTTON@
        + crate::text::decimal((sample_rate / 2 / 1000) as nat) + HIGH_BUTTON@
        + crate::text::decimal((sample_rate / 2 / 1000) as nat) + PANELS@
        + crate::text::decimal(sample_rate as nat) + SCRIPT_NYQUIST@
        + crate::text::decimal((sample_rate / 2) as nat) + SCRIPT_BINS@
        + crate::text::decimal(crate::capture::NUM_BINS as nat) + SCRIPT_RESOLUTION@ + resolution
        + SCRIPT_SETUP@ + crate::text::decimal((sample_rate / 2) as nat) + ZOOM_FULL@
        + crate::text::decimal((sample_rate / 2) as nat) + ZOOM_HIGH@
        + crate::text::decimal((sample_rate / 2) as nat) + ZOOM_START@
        + crate::text::decimal((sample_rate / 2) as nat) + CONTROLS_SCRIPT@ + ROOM_SCRIPT@
        + DISPLAY_SCRIPT@ + WATERFALL_SCRIPT@ + SPECTRUM_SCRIPT@
}

/// Appends text with `<` and `>` written as entities.
fn push_escaped(out: &mut String, s: &str)
    ensures
        final(out)@ == old(out)@ + escaped(s@),
{
    let ghost start = out@;
    let chars = chars_of(s);
    let mut i: usize = 0;
    assert(start + escaped(s@.take(0)) =~= start);
    while i < chars.len()
        invariant
            i <= chars.len(),
            chars@ == s@,
            out@ == start + escaped(s@.take(i as int)),
        decreases chars.len() - i,
    {
        let ghost before = out@;
        assert(s@.take(i + 1).drop_last() =~= s@.take(i as int));
        if chars[i] == '<' {
            out.append("&lt;");
        } else if chars[i] == '>' {
            out.append("&gt;");
        } else {
            out.push(chars[i]);
        }
        i = i + 1;
        assert(out@ =~= start + escaped(s@.take(i as int)));
    }
    assert(s@.take(i as int) =~= s@);
}

/// Escaped text holds no `<` and no `>`, and is unchanged where it held none.
pub proof fn law_escaped_text_opens_no_tag(s: Seq<char>, i: int)
    requires
        0 <= i < escaped(s).len(),
    ensures
        escaped(s)[i] != '<',
        escaped(s)[i] != '>',
        (forall|j: int| 0 <= j < s.len() ==> s[j] != '<' && s[j] != '>') ==> escaped(s) == s,
    decreases s.len(),
{
    reveal_strlit("&lt;");
    reveal_strlit("&gt;");
    let rest = s.drop_last();
    if i < escaped(rest).len() {
        law_escaped_text_opens_no_tag(rest, i);
    }
    if forall|j: int| 0 <= j < s.len() ==> s[j] != '<' && s[j] != '>' {
        lemma_plain_text_stays(s);
    }
}

proof fn lemma_plain_text_stays(s: Seq<char>)
    requires
        forall|j: int| 0 <= j < s.len() ==> s[j] != '<' && s[j] != '>',
    ensures
        escaped(s) == s,
    decreases s.len(),
{
    if s.len() > 0 {
        lemma_plain_text_stays(s.drop_last());
        assert(escaped(s) =~= s);
    } else {
        assert(escaped(s) =~= s);
    }
}

/// Builds the visualization page with the room signature UI.
pub fn build_html(
    sample_rate: u32,
    device_name: &str,
    rounded_resolution: &str,
    resolution: &str,
) -> (r: String)
    ensures
        r@ == page(sample_rate, device_name@, rounded_resolution@, resolution@),
{
    let nyquist: u32 = sample_rate / 2;
    let mut out = STYLE_AND_TITLE.to_owned();
    push_decimal(&mut out, sample_rate as u64);
    out.append(DEVICE_LABEL);
    push_escaped(&mut out, device_name);
    out.append(RATE_LABEL);
    push_decimal(&mut out, sample_rate as u64);
    out.append(NYQUIST_LABEL);
    push_decimal(&mut out, nyquist as u64);
    out.append(RESOLUTION_LABEL);
    out.append(rounded_resolution);
    out.append(ULTRA_BUTTON);
    push_decimal(&mut out, (nyquist / 1000) as u64);
    out.append(FULL_BUTTON);
    push_decimal(&mut out, (nyquist / 1000) as u64);
    out.append(HIGH_BUTTON);
    push_decimal(&mut out, (nyquist / 1000) as u64);
    out.append(PANELS);
    push_decimal(&mut out, sample_rate as u64);
    out.append(SCRIPT_NYQUIST);
    push_decimal(&mut out, nyquist as u64);
    out.append(SCRIPT_BINS);
    push_decimal(&mut out, NUM_BINS as u64);
    out.append(SCRIPT_RESOLUTION);
    out.append(resolution);
    out.append(SCRIPT_SETUP);
    push_decimal(&mut out, nyquist as u64);
    out.append(ZOOM_FULL);
    push_decimal(&mut out, nyquist as u64);
    out.append(ZOOM_HIGH);
    push_decimal(&mut out, nyquist as u64);
    out.append(ZOOM_START);
    push_decimal(&mut out, nyquist as u64);
    out.append(CONTROLS_SCRIPT);
    out.append(ROOM_SCRIPT);
    out.append(DISPLAY_SCRIPT);
    out.append(WATERFALL_SCRIPT);
    out.append(SPECTRUM_SCRIPT);
    out
}

/// Escaping replaces each `<` by `&lt;` and each `>` by `&gt;`, wherever they
/// stand, and leaves what is between them.
pub proof fn law_escaping_goes_character_by_character(a: Seq<char>, b: Seq<char>, c: char)
    ensures
        escaped(a + b) == escaped(a) + escaped(b),
        escaped(seq!['<']) == "&lt;"@,
        escaped(seq!['>']) == "&gt;"@,
        c != '<' && c != '>' ==> escaped(seq![c]) == seq![c],
    decreases b.len(),
{
    assert(seq!['<'].drop_last() =~= Seq::<char>::empty());
    assert(seq!['>'].drop_last() =~= Seq::<char>::empty());
    assert(seq![c].drop_last() =~= Seq::<char>::empty());
    assert(escaped(Seq::<char>::empty()) =~= Seq::<char>::empty());
    assert(escaped(seq!['<']) =~= "&lt;"@);
    assert(escaped(seq!['>']) =~= "&gt;"@);
    if c != '<' && c != '>' {
        assert(escaped(seq![c]) =~= seq![c]);
    }
    if b.len() == 0 {
        assert(a + b =~= a);
        assert(escaped(a + b) =~= escaped(a) + escaped(b));
    } else {
        law_escaping_goes_character_by_character(a, b.drop_last(), c);
        assert((a + b).drop_last() =~= a + b.drop_last());
        assert(escaped(a + b) =~= escaped(a) + escaped(b));
    }
}

/// What the page shows: the rate, the highest frequency, which is half of it,
/// the same in whole kilohertz, the two resolutions, the number of bins, and the
/// name of the device, each in its places.
pub proof fn law_values_on_the_page(
    sample_rate: u32,
    device_name: Seq<char>,
    rounded_resolution: Seq<char>,
    resolution: Seq<char>,
    highest: nat,
    kilohertz: nat,
)
    requires
        2 * highest <= sample_rate < 2 * highest + 2,
        1000 * kilohertz <= highest < 1000 * kilohertz + 1000,
    ensures
        ({
            let rate = crate::text::decimal(sample_rate as nat);
            let hz = crate::text::decimal(highest);
            let khz = crate::text::decimal(kilohertz);
            let head = STYLE_AND_TITLE@ + rate + DEVICE_LABEL@ + escaped(device_name) + RATE_LABEL@
                + rate + NYQUIST_LABEL@ + hz + RESOLUTION_LABEL@ + rounded_resolution
                + ULTRA_BUTTON@ + khz + FULL_BUTTON@ + khz + HIGH_BUTTON@ + khz;
            let script = PANELS@ + rate + SCRIPT_NYQUIST@ + hz + SCRIPT_BINS@
                + crate::text::decimal(1025) + SCRIPT_RESOLUTION@ + resolution + SCRIPT_SETUP@ + hz
                + ZOOM_FULL@ + hz + ZOOM_HIGH@ + hz + ZOOM_START@ + hz;
            page(sample_rate, device_name, rounded_resolution, resolution) == head + script
                + CONTROLS_SCRIPT@ + ROOM_SCRIPT@ + DISPLAY_SCRIPT@ + WATERFALL_SCRIPT@
                + SPECTRUM_SCRIPT@
        }),
{
    let hz = crate::text::decimal(highest);
    let khz = crate::text::decimal(kilohertz);
    assert(highest == sample_rate / 2);
    assert(kilohertz == sample_rate / 2 / 1000);
}

} // verus!
